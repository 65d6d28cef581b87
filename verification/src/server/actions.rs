//! Running an action request against tmux: which tmux operations an action
//! takes, the effect it reports, and the failures it explains.
use vstd::prelude::*;

use crate::domain::state::{
    client_pos, find_client, find_session, lemma_client_pos_range, session_pos, ClientName, DomainState, DomainView,
};
use crate::ipc::{Action, ActionRequest};
use crate::model::WindowTarget;
use crate::order::usize_seq_as_int;
use crate::server::effects::ActionEffect;
use crate::text::{push_str, str_eq, to_owned_string};
use crate::tmux::{Tmux, TmuxError};

verus! {

/// How an action runs beyond its request: the directory for a new window, and
/// whether (and where) to move the client away from a session it closes.
#[derive(Debug, Clone, Default, PartialEq, Eq)]
pub struct ActionExecutionOptions {
    pub create_window_path: Option<String>,
    pub close_session_client_switch: Option<CloseSessionClientSwitch>,
}

/// The client must leave the session it is closing: to its last session, or
/// else to the fallback session when there is one.
#[derive(Debug, Clone, PartialEq, Eq)]
pub struct CloseSessionClientSwitch {
    pub fallback_session_id: Option<String>,
}

/// A failed tmux operation and what the action was doing.
#[derive(Debug, Clone, PartialEq, Eq)]
pub struct ActionFailure {
    pub context: String,
    pub source: TmuxError,
}

/// The texts `parts`, one after another.
pub open spec fn cat(parts: Seq<Seq<char>>) -> Seq<char>
    decreases parts.len(),
{
    if parts.len() == 0 {
        Seq::empty()
    } else {
        cat(parts.drop_last()) + parts.last()
    }
}

fn concat(parts: &[&str]) -> (s: String)
    ensures
        s@ == cat(parts@.map_values(|p: &str| p@)),
{
    let ghost views = parts@.map_values(|p: &str| p@);
    let mut s = String::new();
    let mut i: usize = 0;
    while i < parts.len()
        invariant
            i <= parts@.len(),
            views == parts@.map_values(|p: &str| p@),
            s@ == cat(views.take(i as int)),
        decreases parts@.len() - i,
    {
        assert(views.take(i + 1).drop_last() =~= views.take(i as int));
        push_str(&mut s, parts[i]);
        i = i + 1;
    }
    assert(views.take(views.len() as int) =~= views);
    s
}

pub open spec fn resolve_context() -> Seq<char> {
    "failed to resolve target tmux client"@
}

pub open spec fn switch_session_context(client: Seq<char>, sid: Seq<char>) -> Seq<char> {
    cat(seq!["failed to switch client `"@, client, "` to session `"@, sid, "`"@])
}

pub open spec fn switch_window_context(client: Seq<char>, sid: Seq<char>, wid: Seq<char>) -> Seq<char> {
    cat(seq!["failed to switch client `"@, client, "` to window `"@, wid, "` in session `"@, sid, "`"@])
}

pub open spec fn create_session_context(name: Option<Seq<char>>) -> Seq<char> {
    match name {
        Some(n) => cat(seq!["failed to create session `"@, n, "`"@]),
        None => "failed to create session"@,
    }
}

pub open spec fn create_window_context(sid: Seq<char>, name: Option<Seq<char>>) -> Seq<char> {
    match name {
        Some(n) => cat(seq!["failed to create window `"@, n, "` in session `"@, sid, "`"@]),
        None => cat(seq!["failed to create window in session `"@, sid, "`"@]),
    }
}

pub open spec fn leave_session_context(client: Seq<char>, sid: Seq<char>) -> Seq<char> {
    cat(seq!["failed to switch client `"@, client, "` away from closing session `"@, sid, "`"@])
}

pub open spec fn opt_view(o: Option<String>) -> Option<Seq<char>> {
    match o {
        Some(s) => Some(s@),
        None => None,
    }
}

/// Where a switch sends a client, as plain values.
pub enum TargetView {
    Session(Seq<char>),
    Window(Seq<char>, Seq<char>),
}

pub open spec fn window_target_view(t: WindowTarget) -> TargetView {
    match t {
        WindowTarget::Session(s) => TargetView::Session(s@),
        WindowTarget::Window { session_id, window_id } => TargetView::Window(session_id@, window_id@),
    }
}

/// One operation asked of tmux, with its arguments.
#[derive(Debug, Clone, PartialEq, Eq)]
pub enum TmuxCall {
    ResolveTargetClient { cli_override: Option<String> },
    SwitchClientToLastSession { client: ClientName },
    SwitchTo { client: ClientName, target: WindowTarget },
    CreateSession { name: Option<String> },
    CreateWindow { session: String, name: Option<String>, current_path: Option<String> },
    CloseSession { session: String },
    CloseWindow { session: String, window: String },
    RenameSession { session: String, name: String },
    RenameWindow { window: String, name: String },
}

/// A tmux operation as plain values.
pub enum CallView {
    ResolveTargetClient(Option<Seq<char>>),
    SwitchClientToLastSession(Seq<char>),
    SwitchTo(Seq<char>, TargetView),
    CreateSession(Option<Seq<char>>),
    CreateWindow(Seq<char>, Option<Seq<char>>, Option<Seq<char>>),
    CloseSession(Seq<char>),
    CloseWindow(Seq<char>, Seq<char>),
    RenameSession(Seq<char>, Seq<char>),
    RenameWindow(Seq<char>, Seq<char>),
}

impl View for TmuxCall {
    type V = CallView;

    open spec fn view(&self) -> CallView {
        match self {
            TmuxCall::ResolveTargetClient { cli_override } => CallView::ResolveTargetClient(opt_view(*cli_override)),
            TmuxCall::SwitchClientToLastSession { client } => CallView::SwitchClientToLastSession(client.0@),
            TmuxCall::SwitchTo { client, target } => CallView::SwitchTo(client.0@, window_target_view(*target)),
            TmuxCall::CreateSession { name } => CallView::CreateSession(opt_view(*name)),
            TmuxCall::CreateWindow { session, name, current_path } => CallView::CreateWindow(
                session@,
                opt_view(*name),
                opt_view(*current_path),
            ),
            TmuxCall::CloseSession { session } => CallView::CloseSession(session@),
            TmuxCall::CloseWindow { session, window } => CallView::CloseWindow(session@, window@),
            TmuxCall::RenameSession { session, name } => CallView::RenameSession(session@, name@),
            TmuxCall::RenameWindow { window, name } => CallView::RenameWindow(window@, name@),
        }
    }
}

/// The next thing to do while running an action: ask tmux, fail with the
/// error of an earlier answer, or report the effect.
#[derive(Debug, Clone, PartialEq, Eq)]
pub enum ActionStep {
    Call(TmuxCall),
    /// Fail with this context and the error that answer number `reply` gave.
    Fail { context: String, reply: usize },
    Done(ActionEffect),
}

pub enum StepView {
    Call(CallView),
    Fail(Seq<char>, int),
    Done(ActionEffect),
}

impl View for ActionStep {
    type V = StepView;

    open spec fn view(&self) -> StepView {
        match self {
            ActionStep::Call(c) => StepView::Call(c@),
            ActionStep::Fail { context, reply } => StepView::Fail(context@, *reply as int),
            ActionStep::Done(e) => StepView::Done(*e),
        }
    }
}

/// The text of a successful answer: the client or id that tmux gave (empty
/// for operations that give nothing).
pub open spec fn answer(r: Result<String, TmuxError>) -> String {
    r->Ok_0
}

pub open spec fn close_session_context(sid: Seq<char>) -> Seq<char> {
    cat(seq!["failed to close session `"@, sid, "`"@])
}

/// Closing session `sid` once answers `0..k` moved the client (if asked):
/// close it, then fail or report it closed.
pub open spec fn close_stage(sid: String, r: Seq<Result<String, TmuxError>>, k: int) -> StepView {
    if r.len() == k {
        StepView::Call(CallView::CloseSession(sid@))
    } else if r[k] is Err {
        StepView::Fail(close_session_context(sid@), k)
    } else {
        StepView::Done(ActionEffect::ClosedSession { session_id: sid })
    }
}

/// What running the request does after tmux gave the answers `r` (one per
/// operation asked so far, in order):
/// - switching first resolves the target client, then switches that client;
/// - creating, renaming and closing a window is the one matching operation;
/// - closing a session, when the client must leave it, first resolves the
///   client and switches it to its last session; when that fails and there is
///   a fallback session it switches the client there, and a failure of that
///   stops the close; then the session is closed.
/// Each failure carries the context of its step; each effect carries the
/// client and ids that tmux gave.
pub open spec fn step_spec(request: ActionRequest, options: ActionExecutionOptions, r: Seq<Result<String, TmuxError>>) -> StepView {
    match request.action {
        Action::SwitchSession { session_id } => if r.len() == 0 {
            StepView::Call(CallView::ResolveTargetClient(opt_view(request.target_client)))
        } else if r[0] is Err {
            StepView::Fail(resolve_context(), 0)
        } else if r.len() == 1 {
            StepView::Call(CallView::SwitchTo(answer(r[0])@, TargetView::Session(session_id@)))
        } else if r[1] is Err {
            StepView::Fail(switch_session_context(answer(r[0])@, session_id@), 1)
        } else {
            StepView::Done(ActionEffect::SwitchedSession { client_name: answer(r[0]), session_id })
        },
        Action::SwitchWindow { session_id, window_id } => if r.len() == 0 {
            StepView::Call(CallView::ResolveTargetClient(opt_view(request.target_client)))
        } else if r[0] is Err {
            StepView::Fail(resolve_context(), 0)
        } else if r.len() == 1 {
            StepView::Call(CallView::SwitchTo(answer(r[0])@, TargetView::Window(session_id@, window_id@)))
        } else if r[1] is Err {
            StepView::Fail(switch_window_context(answer(r[0])@, session_id@, window_id@), 1)
        } else {
            StepView::Done(ActionEffect::SwitchedWindow { client_name: answer(r[0]), session_id, window_id })
        },
        Action::CreateSession { name } => if r.len() == 0 {
            StepView::Call(CallView::CreateSession(opt_view(name)))
        } else if r[0] is Err {
            StepView::Fail(create_session_context(opt_view(name)), 0)
        } else {
            StepView::Done(ActionEffect::CreatedSession { session_id: answer(r[0]) })
        },
        Action::CreateWindow { session_id, name } => if r.len() == 0 {
            StepView::Call(
                CallView::CreateWindow(session_id@, opt_view(name), opt_view(options.create_window_path)),
            )
        } else if r[0] is Err {
            StepView::Fail(create_window_context(session_id@, opt_view(name)), 0)
        } else {
            StepView::Done(
                ActionEffect::CreatedWindow {
                    session_id,
                    window_id: answer(r[0]),
                    current_path: options.create_window_path,
                },
            )
        },
        Action::RenameSession { session_id, name } => if r.len() == 0 {
            StepView::Call(CallView::RenameSession(session_id@, name@))
        } else if r[0] is Err {
            StepView::Fail(cat(seq!["failed to rename session `"@, session_id@, "` to `"@, name@, "`"@]), 0)
        } else {
            StepView::Done(ActionEffect::RenamedSession { session_id, name })
        },
        Action::RenameWindow { window_id, name } => if r.len() == 0 {
            StepView::Call(CallView::RenameWindow(window_id@, name@))
        } else if r[0] is Err {
            StepView::Fail(cat(seq!["failed to rename window `"@, window_id@, "` to `"@, name@, "`"@]), 0)
        } else {
            StepView::Done(ActionEffect::RenamedWindow { window_id, name })
        },
        Action::CloseSession { session_id } => match options.close_session_client_switch {
            None => close_stage(session_id, r, 0),
            Some(sw) => if r.len() == 0 {
                StepView::Call(CallView::ResolveTargetClient(opt_view(request.target_client)))
            } else if r[0] is Err {
                StepView::Fail(resolve_context(), 0)
            } else if r.len() == 1 {
                StepView::Call(CallView::SwitchClientToLastSession(answer(r[0])@))
            } else if r[1] is Ok {
                close_stage(session_id, r, 2)
            } else {
                match sw.fallback_session_id {
                    None => close_stage(session_id, r, 2),
                    Some(f) => if r.len() == 2 {
                        StepView::Call(CallView::SwitchTo(answer(r[0])@, TargetView::Session(f@)))
                    } else if r[2] is Err {
                        StepView::Fail(leave_session_context(answer(r[0])@, session_id@), 2)
                    } else {
                        close_stage(session_id, r, 3)
                    },
                }
            },
        },
        Action::CloseWindow { session_id, window_id } => if r.len() == 0 {
            StepView::Call(CallView::CloseWindow(session_id@, window_id@))
        } else if r[0] is Err {
            StepView::Fail(
                cat(seq!["failed to close window `"@, window_id@, "` in session `"@, session_id@, "`"@]),
                0,
            )
        } else {
            StepView::Done(ActionEffect::ClosedWindow { session_id, window_id })
        },
    }
}

/// The result that a finishing step gives.
pub open spec fn finished_with(step: StepView, r: Seq<Result<String, TmuxError>>, out: Result<ActionEffect, ActionFailure>) -> bool {
    match step {
        StepView::Done(e) => out == Ok::<ActionEffect, ActionFailure>(e),
        StepView::Fail(context, k) => out matches Err(f) && f.context@ == context && f.source == r[k]->Err_0,
        StepView::Call(_) => false,
    }
}

/// A run of the request in which tmux gave the answers `r`: each operation
/// asked was the one `step_spec` names after the answers before it, and the
/// result is what `step_spec` gives after all of them.
pub open spec fn ran_with(
    request: ActionRequest,
    options: ActionExecutionOptions,
    r: Seq<Result<String, TmuxError>>,
    out: Result<ActionEffect, ActionFailure>,
) -> bool {
    &&& forall|k: int| 0 <= k < r.len() ==> #[trigger] step_spec(request, options, r.take(k)) is Call
    &&& finished_with(step_spec(request, options, r), r, out)
}

proof fn lemma_calls_are_few(request: ActionRequest, options: ActionExecutionOptions, r: Seq<Result<String, TmuxError>>)
    requires
        step_spec(request, options, r) is Call,
    ensures
        r.len() <= 3,
{
}

proof fn lemma_failure_names_an_error(
    request: ActionRequest,
    options: ActionExecutionOptions,
    r: Seq<Result<String, TmuxError>>,
)
    ensures
        step_spec(request, options, r) matches StepView::Fail(_, k) ==> 0 <= k < r.len() && r[k] is Err,
{
}

/// Creating, renaming and closing a window, and closing a session when the
/// client need not leave it, each ask tmux for exactly one operation, and
/// succeed exactly when it does; a created session or window carries the id
/// that tmux gave.
pub proof fn law_one_operation_per_plain_action(
    request: ActionRequest,
    options: ActionExecutionOptions,
    r: Seq<Result<String, TmuxError>>,
    out: Result<ActionEffect, ActionFailure>,
)
    requires
        ran_with(request, options, r, out),
        !(request.action is SwitchSession),
        !(request.action is SwitchWindow),
        !(request.action is CloseSession && options.close_session_client_switch is Some),
    ensures
        r.len() == 1,
        step_spec(request, options, Seq::empty()) is Call,
        out is Ok <==> r[0] is Ok,
        out matches Ok(ActionEffect::CreatedSession { session_id }) ==> session_id == answer(r[0]),
        out matches Ok(ActionEffect::CreatedWindow { window_id, .. }) ==> window_id == answer(r[0]),
{
    assert(r.take(0) =~= Seq::<Result<String, TmuxError>>::empty());
    if r.len() == 0 {
        assert(r =~= Seq::<Result<String, TmuxError>>::empty());
    }
    if r.len() >= 2 {
        assert(step_spec(request, options, r.take(1)) is Call);
    }
    assert(r.take(1) =~= r);
}

/// Switching resolves the target client first (with the client named in the
/// request, if any), then switches the client that tmux gave, and the effect
/// names that client.
pub proof fn law_switches_use_the_resolved_client(
    request: ActionRequest,
    options: ActionExecutionOptions,
    r: Seq<Result<String, TmuxError>>,
    out: Result<ActionEffect, ActionFailure>,
)
    requires
        ran_with(request, options, r, out),
        request.action is SwitchSession || request.action is SwitchWindow,
    ensures
        1 <= r.len() <= 2,
        step_spec(request, options, Seq::empty()) == StepView::Call(
            CallView::ResolveTargetClient(opt_view(request.target_client)),
        ),
        r.len() == 2 ==> r[0] is Ok && (step_spec(request, options, r.take(1)) matches StepView::Call(
            CallView::SwitchTo(client, _),
        ) && client == answer(r[0])@),
        out is Ok <==> (r.len() == 2 && r[1] is Ok),
        out matches Ok(ActionEffect::SwitchedSession { client_name, .. }) ==> client_name == answer(r[0]),
        out matches Ok(ActionEffect::SwitchedWindow { client_name, .. }) ==> client_name == answer(r[0]),
{
    assert(r.take(0) =~= Seq::<Result<String, TmuxError>>::empty());
    if r.len() == 0 {
        assert(r =~= Seq::<Result<String, TmuxError>>::empty());
    }
    if r.len() >= 2 {
        assert(step_spec(request, options, r.take(1)) is Call);
        assert(r.take(1)[0] == r[0]);
    }
    if r.len() >= 3 {
        assert(step_spec(request, options, r.take(2)) is Call);
        assert(r.take(2)[0] == r[0] && r.take(2)[1] == r[1]);
    }
}

/// The fallback session that a closing client is switched to.
pub open spec fn fallback_of(options: ActionExecutionOptions) -> Option<String> {
    match options.close_session_client_switch {
        Some(sw) => sw.fallback_session_id,
        None => None,
    }
}

/// Closing a session that the client must leave: tmux first resolves the
/// client, then switches it to its last session; only when that fails and a
/// fallback session is set does it switch the client there, and a failure of
/// that stops the close. The session is closed only after the client left it,
/// as the last operation, and the close succeeds exactly when tmux closed it.
pub proof fn law_closing_a_session_moves_the_client_first(
    request: ActionRequest,
    options: ActionExecutionOptions,
    r: Seq<Result<String, TmuxError>>,
    out: Result<ActionEffect, ActionFailure>,
)
    requires
        ran_with(request, options, r, out),
        request.action is CloseSession,
        options.close_session_client_switch is Some,
    ensures
        step_spec(request, options, Seq::empty()) == StepView::Call(
            CallView::ResolveTargetClient(opt_view(request.target_client)),
        ),
        r.len() >= 2 ==> r[0] is Ok && step_spec(request, options, r.take(1)) == StepView::Call(
            CallView::SwitchClientToLastSession(answer(r[0])@),
        ),
        r.len() >= 3 && r[1] is Err && fallback_of(options) is Some ==> step_spec(request, options, r.take(2))
            == StepView::Call(CallView::SwitchTo(answer(r[0])@, TargetView::Session(fallback_of(options)->0@))),
        r.len() >= 3 && r[1] is Err && r[2] is Err ==> r.len() == 3 && out is Err,
        forall|k: int| 0 <= k < r.len() && #[trigger] step_spec(request, options, r.take(k)) == StepView::Call(
            CallView::CloseSession(request.action->CloseSession_session_id@),
        ) ==> k == r.len() - 1 && k >= 2 && (r[1] is Ok || fallback_of(options) is None || (k == 3 && r[2] is Ok)),
        out is Ok ==> out == Ok::<ActionEffect, ActionFailure>(
            ActionEffect::ClosedSession { session_id: request.action->CloseSession_session_id },
        ) && r.len() >= 3 && r[r.len() - 1] is Ok && step_spec(request, options, r.take(r.len() - 1))
            == StepView::Call(CallView::CloseSession(request.action->CloseSession_session_id@)),
{
    assert(r.take(0) =~= Seq::<Result<String, TmuxError>>::empty());
    if r.len() == 0 {
        assert(r =~= Seq::<Result<String, TmuxError>>::empty());
    }
    if r.len() >= 1 {
        assert(r.take(1)[0] == r[0]);
    }
    if r.len() >= 2 {
        assert(step_spec(request, options, r.take(1)) is Call);
        assert(r.take(2)[0] == r[0] && r.take(2)[1] == r[1]);
    }
    if r.len() >= 3 {
        assert(step_spec(request, options, r.take(2)) is Call);
        assert(r.take(3)[0] == r[0] && r.take(3)[1] == r[1] && r.take(3)[2] == r[2]);
    }
    if r.len() >= 4 {
        assert(step_spec(request, options, r.take(3)) is Call);
    }
    lemma_calls_are_few(request, options, r.take(r.len() - 1));
    assert(r.take(r.len() - 1).len() <= 3);
    if r.len() >= 1 {
        assert(r.take(r.len() as int) =~= r);
    }
}

/// The text of answer `r`, which succeeded.
fn answer_text(r: &Result<String, TmuxError>) -> (s: String)
    requires
        r is Ok,
    ensures
        s == answer(*r),
{
    match r {
        Ok(s) => s.clone(),
        Err(_) => vstd::pervasive::unreached(),
    }
}

fn opt_string(o: &Option<String>) -> (r: Option<String>)
    ensures
        r == *o,
{
    match o {
        Some(s) => Some(s.clone()),
        None => None,
    }
}

fn close_step(session_id: &String, replies: &Vec<Result<String, TmuxError>>, k: usize) -> (s: ActionStep)
    requires
        k <= replies@.len(),
    ensures
        s@ == close_stage(*session_id, replies@, k as int),
{
    if replies.len() == k {
        ActionStep::Call(TmuxCall::CloseSession { session: session_id.clone() })
    } else if replies[k].is_err() {
        let parts = ["failed to close session `", session_id.as_str(), "`"];
        assert(parts@.map_values(|p: &str| p@) =~= seq!["failed to close session `"@, session_id@, "`"@]);
        ActionStep::Fail { context: concat(&parts), reply: k }
    } else {
        ActionStep::Done(ActionEffect::ClosedSession { session_id: session_id.clone() })
    }
}

/// What to do next, after tmux gave the answers `replies` to the operations
/// asked so far.
pub fn action_step(request: &ActionRequest, options: &ActionExecutionOptions, replies: &Vec<Result<String, TmuxError>>) -> (s: ActionStep)
    ensures
        s@ == step_spec(*request, *options, replies@),
{
    let n = replies.len();
    match &request.action {
        Action::SwitchSession { session_id } => {
            if n == 0 {
                ActionStep::Call(TmuxCall::ResolveTargetClient { cli_override: opt_string(&request.target_client) })
            } else if replies[0].is_err() {
                ActionStep::Fail { context: to_owned_string("failed to resolve target tmux client"), reply: 0 }
            } else {
                let client = answer_text(&replies[0]);
                if n == 1 {
                    ActionStep::Call(
                        TmuxCall::SwitchTo { client: ClientName(client), target: WindowTarget::Session(session_id.clone()) },
                    )
                } else if replies[1].is_err() {
                    let parts = ["failed to switch client `", client.as_str(), "` to session `", session_id.as_str(), "`"];
                    assert(parts@.map_values(|p: &str| p@) =~= seq![
                        "failed to switch client `"@,
                        client@,
                        "` to session `"@,
                        session_id@,
                        "`"@,
                    ]);
                    ActionStep::Fail { context: concat(&parts), reply: 1 }
                } else {
                    ActionStep::Done(ActionEffect::SwitchedSession { client_name: client, session_id: session_id.clone() })
                }
            }
        },
        Action::SwitchWindow { session_id, window_id } => {
            if n == 0 {
                ActionStep::Call(TmuxCall::ResolveTargetClient { cli_override: opt_string(&request.target_client) })
            } else if replies[0].is_err() {
                ActionStep::Fail { context: to_owned_string("failed to resolve target tmux client"), reply: 0 }
            } else {
                let client = answer_text(&replies[0]);
                if n == 1 {
                    ActionStep::Call(
                        TmuxCall::SwitchTo {
                            client: ClientName(client),
                            target: WindowTarget::Window { session_id: session_id.clone(), window_id: window_id.clone() },
                        },
                    )
                } else if replies[1].is_err() {
                    let parts = [
                        "failed to switch client `",
                        client.as_str(),
                        "` to window `",
                        window_id.as_str(),
                        "` in session `",
                        session_id.as_str(),
                        "`",
                    ];
                    assert(parts@.map_values(|p: &str| p@) =~= seq![
                        "failed to switch client `"@,
                        client@,
                        "` to window `"@,
                        window_id@,
                        "` in session `"@,
                        session_id@,
                        "`"@,
                    ]);
                    ActionStep::Fail { context: concat(&parts), reply: 1 }
                } else {
                    ActionStep::Done(
                        ActionEffect::SwitchedWindow {
                            client_name: client,
                            session_id: session_id.clone(),
                            window_id: window_id.clone(),
                        },
                    )
                }
            }
        },
        Action::CreateSession { name } => {
            if n == 0 {
                ActionStep::Call(TmuxCall::CreateSession { name: opt_string(name) })
            } else if replies[0].is_err() {
                let context = match name {
                    Some(nm) => {
                        let parts = ["failed to create session `", nm.as_str(), "`"];
                        assert(parts@.map_values(|p: &str| p@) =~= seq!["failed to create session `"@, nm@, "`"@]);
                        concat(&parts)
                    },
                    None => to_owned_string("failed to create session"),
                };
                ActionStep::Fail { context, reply: 0 }
            } else {
                ActionStep::Done(ActionEffect::CreatedSession { session_id: answer_text(&replies[0]) })
            }
        },
        Action::CreateWindow { session_id, name } => {
            if n == 0 {
                ActionStep::Call(
                    TmuxCall::CreateWindow {
                        session: session_id.clone(),
                        name: opt_string(name),
                        current_path: opt_string(&options.create_window_path),
                    },
                )
            } else if replies[0].is_err() {
                let context = match name {
                    Some(nm) => {
                        let parts = ["failed to create window `", nm.as_str(), "` in session `", session_id.as_str(), "`"];
                        assert(parts@.map_values(|p: &str| p@) =~= seq![
                            "failed to create window `"@,
                            nm@,
                            "` in session `"@,
                            session_id@,
                            "`"@,
                        ]);
                        concat(&parts)
                    },
                    None => {
                        let parts = ["failed to create window in session `", session_id.as_str(), "`"];
                        assert(parts@.map_values(|p: &str| p@) =~= seq!["failed to create window in session `"@, session_id@, "`"@]);
                        concat(&parts)
                    },
                };
                ActionStep::Fail { context, reply: 0 }
            } else {
                ActionStep::Done(
                    ActionEffect::CreatedWindow {
                        session_id: session_id.clone(),
                        window_id: answer_text(&replies[0]),
                        current_path: opt_string(&options.create_window_path),
                    },
                )
            }
        },
        Action::RenameSession { session_id, name } => {
            if n == 0 {
                ActionStep::Call(TmuxCall::RenameSession { session: session_id.clone(), name: name.clone() })
            } else if replies[0].is_err() {
                let parts = ["failed to rename session `", session_id.as_str(), "` to `", name.as_str(), "`"];
                assert(parts@.map_values(|p: &str| p@) =~= seq!["failed to rename session `"@, session_id@, "` to `"@, name@, "`"@]);
                ActionStep::Fail { context: concat(&parts), reply: 0 }
            } else {
                ActionStep::Done(ActionEffect::RenamedSession { session_id: session_id.clone(), name: name.clone() })
            }
        },
        Action::RenameWindow { window_id, name } => {
            if n == 0 {
                ActionStep::Call(TmuxCall::RenameWindow { window: window_id.clone(), name: name.clone() })
            } else if replies[0].is_err() {
                let parts = ["failed to rename window `", window_id.as_str(), "` to `", name.as_str(), "`"];
                assert(parts@.map_values(|p: &str| p@) =~= seq!["failed to rename window `"@, window_id@, "` to `"@, name@, "`"@]);
                ActionStep::Fail { context: concat(&parts), reply: 0 }
            } else {
                ActionStep::Done(ActionEffect::RenamedWindow { window_id: window_id.clone(), name: name.clone() })
            }
        },
        Action::CloseSession { session_id } => {
            match &options.close_session_client_switch {
                None => close_step(session_id, replies, 0),
                Some(sw) => {
                    if n == 0 {
                        ActionStep::Call(
                            TmuxCall::ResolveTargetClient { cli_override: opt_string(&request.target_client) },
                        )
                    } else if replies[0].is_err() {
                        ActionStep::Fail { context: to_owned_string("failed to resolve target tmux client"), reply: 0 }
                    } else {
                        let client = answer_text(&replies[0]);
                        if n == 1 {
                            ActionStep::Call(TmuxCall::SwitchClientToLastSession { client: ClientName(client) })
                        } else if replies[1].is_ok() {
                            close_step(session_id, replies, 2)
                        } else {
                            match &sw.fallback_session_id {
                                None => close_step(session_id, replies, 2),
                                Some(f) => {
                                    if n == 2 {
                                        ActionStep::Call(
                                            TmuxCall::SwitchTo {
                                                client: ClientName(client),
                                                target: WindowTarget::Session(f.clone()),
                                            },
                                        )
                                    } else if replies[2].is_err() {
                                        let parts = [
                                            "failed to switch client `",
                                            client.as_str(),
                                            "` away from closing session `",
                                            session_id.as_str(),
                                            "`",
                                        ];
                                        assert(parts@.map_values(|p: &str| p@) =~= seq![
                                            "failed to switch client `"@,
                                            client@,
                                            "` away from closing session `"@,
                                            session_id@,
                                            "`"@,
                                        ]);
                                        ActionStep::Fail { context: concat(&parts), reply: 2 }
                                    } else {
                                        close_step(session_id, replies, 3)
                                    }
                                },
                            }
                        }
                    }
                },
            }
        },
        Action::CloseWindow { session_id, window_id } => {
            if n == 0 {
                ActionStep::Call(TmuxCall::CloseWindow { session: session_id.clone(), window: window_id.clone() })
            } else if replies[0].is_err() {
                let parts = ["failed to close window `", window_id.as_str(), "` in session `", session_id.as_str(), "`"];
                assert(parts@.map_values(|p: &str| p@) =~= seq![
                    "failed to close window `"@,
                    window_id@,
                    "` in session `"@,
                    session_id@,
                    "`"@,
                ]);
                ActionStep::Fail { context: concat(&parts), reply: 0 }
            } else {
                ActionStep::Done(ActionEffect::ClosedWindow { session_id: session_id.clone(), window_id: window_id.clone() })
            }
        },
    }
}

/// Runs an action request against tmux: asks tmux, in order, for the
/// operations that `action_step` names after each answer, and reports what it
/// names at the end. Each answer is what `tmux.perform` gave for the operation
/// named after the answers before it; what tmux answers is tmux's, and the run
/// is stated for whatever it answered.
pub fn execute_action_request<T: Tmux>(tmux: &T, request: &ActionRequest, options: &ActionExecutionOptions) -> (out: Result<
    ActionEffect,
    ActionFailure,
>)
    ensures
        exists|calls: Seq<TmuxCall>, r: Seq<Result<String, TmuxError>>|
            {
                &&& ran_with(*request, *options, r, out)
                &&& calls.len() == r.len()
                &&& forall|k: int|
                    0 <= k < r.len() ==> step_spec(*request, *options, r.take(k)) == StepView::Call((#[trigger] calls[k])@)
                        && call_ensures(T::perform, (tmux, &calls[k]), r[k])
            },
{
    let mut replies: Vec<Result<String, TmuxError>> = Vec::new();
    let ghost mut log: Seq<TmuxCall> = Seq::empty();
    loop
        invariant
            replies@.len() <= 4,
            log.len() == replies@.len(),
            forall|k: int| 0 <= k < replies@.len() ==> #[trigger] step_spec(*request, *options, replies@.take(k)) is Call,
            forall|k: int|
                0 <= k < replies@.len() ==> step_spec(*request, *options, replies@.take(k)) == StepView::Call(
                    (#[trigger] log[k])@,
                ) && call_ensures(T::perform, (tmux, &log[k]), replies@[k]),
        decreases 4 - replies@.len(),
    {
        let step = action_step(request, options, &replies);
        proof {
            lemma_failure_names_an_error(*request, *options, replies@);
        }
        match step {
            ActionStep::Call(call) => {
                proof {
                    lemma_calls_are_few(*request, *options, replies@);
                }
                let ghost before = replies@;
                let ghost before_log = log;
                let reply = tmux.perform(&call);
                replies.push(reply);
                proof {
                    log = log.push(call);
                    assert(replies@.take(before.len() as int) =~= before);
                    assert forall|k: int| 0 <= k < replies@.len() implies #[trigger] step_spec(
                        *request,
                        *options,
                        replies@.take(k),
                    ) is Call by {
                        if k < before.len() {
                            assert(replies@.take(k) =~= before.take(k));
                        }
                    }
                    assert forall|k: int| 0 <= k < replies@.len() implies step_spec(
                        *request,
                        *options,
                        replies@.take(k),
                    ) == StepView::Call((#[trigger] log[k])@) && call_ensures(T::perform, (tmux, &log[k]), replies@[k]) by {
                        if k < before.len() {
                            assert(replies@.take(k) =~= before.take(k));
                            assert(log[k] == before_log[k]);
                            assert(replies@[k] == before[k]);
                        }
                    }
                }
            },
            ActionStep::Fail { context, reply } => {
                let ghost all = replies@;
                let failed = replies.remove(reply);
                return match failed {
                    Err(source) => {
                        let out = Err(ActionFailure { context, source });
                        assert(ran_with(*request, *options, all, out));
                        out
                    },
                    Ok(_) => vstd::pervasive::unreached(),
                };
            },
            ActionStep::Done(effect) => {
                let out = Ok(effect);
                assert(ran_with(*request, *options, replies@, out));
                return out;
            },
        }
    }
}

} // verus!
