//! What a successful action changed in tmux, and when a refreshed state shows it.
use vstd::prelude::*;

use crate::domain::state::{
    find_session, find_winlink, lemma_session_pos_range, session_pos, winlink_pos, DomainState,
};
use crate::ipc::ActionOutcome;
use crate::text::{push_str, str_eq, to_owned_string};

verus! {

/// The change that an action made in tmux.
#[derive(Debug, Clone, PartialEq, Eq)]
pub enum ActionEffect {
    SwitchedSession { client_name: String, session_id: String },
    SwitchedWindow { client_name: String, session_id: String, window_id: String },
    CreatedSession { session_id: String },
    CreatedWindow { session_id: String, window_id: String, current_path: Option<String> },
    RenamedSession { session_id: String, name: String },
    RenamedWindow { window_id: String, name: String },
    ClosedSession { session_id: String },
    ClosedWindow { session_id: String, window_id: String },
}

/// Whether the state shows the effect: the client in its new place, the created
/// session or window present, the new name given, the closed one gone.
pub open spec fn effect_shown(e: ActionEffect, d: crate::domain::state::DomainView) -> bool {
    match e {
        ActionEffect::SwitchedSession { client_name, session_id } => exists|i: int|
            0 <= i < d.clients.len() && (#[trigger] d.clients[i]).name.0@ == client_name@ && d.clients[i].session_id@
                == session_id@,
        ActionEffect::SwitchedWindow { client_name, session_id, window_id } => exists|i: int|
            0 <= i < d.clients.len() && (#[trigger] d.clients[i]).name.0@ == client_name@ && d.clients[i].session_id@
                == session_id@ && (d.clients[i].current_window_id matches Some(w) && w@ == window_id@),
        ActionEffect::CreatedSession { session_id } => session_pos(d.sessions, session_id@) >= 0,
        ActionEffect::CreatedWindow { session_id, window_id, .. } => winlink_pos(
            d.winlinks,
            session_id@,
            window_id@,
        ) >= 0,
        ActionEffect::RenamedSession { session_id, name } => session_pos(d.sessions, session_id@) >= 0
            && d.sessions[session_pos(d.sessions, session_id@)].name@ == name@,
        ActionEffect::RenamedWindow { window_id, name } => exists|i: int|
            0 <= i < d.winlinks.len() && (#[trigger] d.winlinks[i]).1.id@ == window_id@ && d.winlinks[i].1.name@
                == name@,
        ActionEffect::ClosedSession { session_id } => session_pos(d.sessions, session_id@) < 0,
        ActionEffect::ClosedWindow { session_id, window_id } => winlink_pos(d.winlinks, session_id@, window_id@) < 0,
    }
}

/// The message when a refreshed state does not show the effect.
pub open spec fn unsatisfied_text(e: ActionEffect) -> Seq<char> {
    match e {
        ActionEffect::SwitchedSession { client_name, session_id } => "refreshed state did not show client `"@
            + client_name@ + "` in session `"@ + session_id@ + "`"@,
        ActionEffect::SwitchedWindow { client_name, session_id, window_id } => "refreshed state did not show client `"@
            + client_name@ + "` on window `"@ + window_id@ + "` in session `"@ + session_id@ + "`"@,
        ActionEffect::CreatedSession { session_id } => "refreshed state did not include created session `"@
            + session_id@ + "`"@,
        ActionEffect::CreatedWindow { session_id, window_id, .. } => "refreshed state did not include created window `"@
            + window_id@ + "` in session `"@ + session_id@ + "`"@,
        ActionEffect::RenamedSession { session_id, name } => "refreshed state did not show session `"@ + session_id@
            + "` renamed to `"@ + name@ + "`"@,
        ActionEffect::RenamedWindow { window_id, name } => "refreshed state did not show window `"@ + window_id@
            + "` renamed to `"@ + name@ + "`"@,
        ActionEffect::ClosedSession { session_id } => "refreshed state still included closed session `"@ + session_id@
            + "`"@,
        ActionEffect::ClosedWindow { session_id, window_id } => "refreshed state still included closed window `"@
            + window_id@ + "` in session `"@ + session_id@ + "`"@,
    }
}

/// `a`, `b`, `c`, `d` and `e` one after another.
fn concat5(a: &str, b: &str, c: &str, d: &str, e: &str) -> (s: String)
    ensures
        s@ == a@ + b@ + c@ + d@ + e@,
{
    let mut s = to_owned_string(a);
    push_str(&mut s, b);
    push_str(&mut s, c);
    push_str(&mut s, d);
    push_str(&mut s, e);
    s
}

fn concat3(a: &str, b: &str, c: &str) -> (s: String)
    ensures
        s@ == a@ + b@ + c@,
{
    let mut s = to_owned_string(a);
    push_str(&mut s, b);
    push_str(&mut s, c);
    s
}

impl ActionEffect {
    /// What the action's caller learns: the id of a created session or window.
    pub fn outcome(&self) -> (o: Option<ActionOutcome>)
        ensures
            match *self {
                ActionEffect::CreatedSession { session_id } => o matches Some(ActionOutcome::CreatedSession { session_id: s })
                    && s == session_id,
                ActionEffect::CreatedWindow { session_id, window_id, .. } => o matches Some(
                    ActionOutcome::CreatedWindow { session_id: s, window_id: w },
                ) && s == session_id && w == window_id,
                _ => o.is_none(),
            },
    {
        match self {
            ActionEffect::CreatedSession { session_id } => Some(ActionOutcome::CreatedSession { session_id: session_id.clone() }),
            ActionEffect::CreatedWindow { session_id, window_id, .. } => Some(
                ActionOutcome::CreatedWindow { session_id: session_id.clone(), window_id: window_id.clone() },
            ),
            _ => None,
        }
    }

    /// Whether `state` shows the effect.
    #[verifier::loop_isolation(false)]
    pub fn is_satisfied(&self, state: &DomainState) -> (b: bool)
        ensures
            b == effect_shown(*self, state@),
    {
        match self {
            ActionEffect::SwitchedSession { client_name, session_id } => {
                let mut i: usize = 0;
                while i < state.clients.len()
                    invariant
                        i <= state.clients@.len(),
                        forall|j: int| 0 <= j < i ==> !((#[trigger] state.clients@[j]).name.0@ == client_name@
                            && state.clients@[j].session_id@ == session_id@),
                    decreases state.clients@.len() - i,
                {
                    let c = &state.clients[i];
                    if str_eq(c.name.0.as_str(), client_name.as_str()) && str_eq(c.session_id.as_str(), session_id.as_str()) {
                        assert(state@.clients[i as int] == *c);
                        return true;
                    }
                    i = i + 1;
                }
                false
            },
            ActionEffect::SwitchedWindow { client_name, session_id, window_id } => {
                let mut i: usize = 0;
                while i < state.clients.len()
                    invariant
                        i <= state.clients@.len(),
                        forall|j: int| 0 <= j < i ==> !((#[trigger] state.clients@[j]).name.0@ == client_name@
                            && state.clients@[j].session_id@ == session_id@ && (state.clients@[j].current_window_id matches Some(
                            w,
                        ) && w@ == window_id@)),
                    decreases state.clients@.len() - i,
                {
                    let c = &state.clients[i];
                    let on_window = match &c.current_window_id {
                        Some(w) => str_eq(w.as_str(), window_id.as_str()),
                        None => false,
                    };
                    if str_eq(c.name.0.as_str(), client_name.as_str()) && str_eq(c.session_id.as_str(), session_id.as_str())
                        && on_window {
                        assert(state@.clients[i as int] == *c);
                        return true;
                    }
                    i = i + 1;
                }
                false
            },
            ActionEffect::CreatedSession { session_id } => find_session(&state.sessions, session_id.as_str()).is_some(),
            ActionEffect::CreatedWindow { session_id, window_id, .. } => find_winlink(
                &state.winlinks,
                session_id.as_str(),
                window_id.as_str(),
            ).is_some(),
            ActionEffect::RenamedSession { session_id, name } => match find_session(&state.sessions, session_id.as_str()) {
                Some(p) => {
                    proof { lemma_session_pos_range(state.sessions@, session_id@); }
                    str_eq(state.sessions[p].name.as_str(), name.as_str())
                },
                None => false,
            },
            ActionEffect::RenamedWindow { window_id, name } => {
                let mut i: usize = 0;
                while i < state.winlinks.len()
                    invariant
                        i <= state.winlinks@.len(),
                        forall|j: int| 0 <= j < i ==> !((#[trigger] state.winlinks@[j]).1.id@ == window_id@
                            && state.winlinks@[j].1.name@ == name@),
                    decreases state.winlinks@.len() - i,
                {
                    let w = &state.winlinks[i].1;
                    if str_eq(w.id.as_str(), window_id.as_str()) && str_eq(w.name.as_str(), name.as_str()) {
                        assert(state@.winlinks[i as int].1 == *w);
                        return true;
                    }
                    i = i + 1;
                }
                false
            },
            ActionEffect::ClosedSession { session_id } => find_session(&state.sessions, session_id.as_str()).is_none(),
            ActionEffect::ClosedWindow { session_id, window_id } => find_winlink(
                &state.winlinks,
                session_id.as_str(),
                window_id.as_str(),
            ).is_none(),
        }
    }

    /// The message for a refreshed state that does not show the effect.
    pub fn unsatisfied_message(&self) -> (m: String)
        ensures
            m@ == unsatisfied_text(*self),
    {
        match self {
            ActionEffect::SwitchedSession { client_name, session_id } => concat5(
                "refreshed state did not show client `",
                client_name.as_str(),
                "` in session `",
                session_id.as_str(),
                "`",
            ),
            ActionEffect::SwitchedWindow { client_name, session_id, window_id } => {
                let mut m = concat5(
                    "refreshed state did not show client `",
                    client_name.as_str(),
                    "` on window `",
                    window_id.as_str(),
                    "` in session `",
                );
                push_str(&mut m, session_id.as_str());
                push_str(&mut m, "`");
                m
            },
            ActionEffect::CreatedSession { session_id } => concat3(
                "refreshed state did not include created session `",
                session_id.as_str(),
                "`",
            ),
            ActionEffect::CreatedWindow { session_id, window_id, .. } => concat5(
                "refreshed state did not include created window `",
                window_id.as_str(),
                "` in session `",
                session_id.as_str(),
                "`",
            ),
            ActionEffect::RenamedSession { session_id, name } => concat5(
                "refreshed state did not show session `",
                session_id.as_str(),
                "` renamed to `",
                name.as_str(),
                "`",
            ),
            ActionEffect::RenamedWindow { window_id, name } => concat5(
                "refreshed state did not show window `",
                window_id.as_str(),
                "` renamed to `",
                name.as_str(),
                "`",
            ),
            ActionEffect::ClosedSession { session_id } => concat3(
                "refreshed state still included closed session `",
                session_id.as_str(),
                "`",
            ),
            ActionEffect::ClosedWindow { session_id, window_id } => concat5(
                "refreshed state still included closed window `",
                window_id.as_str(),
                "` in session `",
                session_id.as_str(),
                "`",
            ),
        }
    }
}

} // verus!
