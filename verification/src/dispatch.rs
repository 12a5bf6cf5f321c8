//! Delivering user input to a session's connector: which connector takes a prompt,
//! what a permission grant is recorded as, and what answering a pending request
//! reports back.
use vstd::prelude::*;

use crate::codex_config::join_with;
use crate::session_errors::DispatchMessageError;
use crate::text::{copy_str, push_char};

verus! {

/// The connector a session's input goes to.
#[derive(Debug, Clone, Copy, PartialEq, Eq, Structural)]
pub enum ConnectorRoute {
    Codex,
    Claude,
}

/// Where a prompt or steer goes: nowhere for a session that does not exist; nowhere
/// for one with no live connector; else to its Codex connector when it has one, to its
/// other connector otherwise.
pub open spec fn prompt_route(session_exists: bool, has_codex: bool, has_claude: bool) -> Result<
    ConnectorRoute,
    DispatchMessageError,
> {
    if !session_exists {
        Err(DispatchMessageError::SessionNotFound)
    } else if !has_codex && !has_claude {
        Err(DispatchMessageError::ConnectorUnavailable)
    } else if has_codex {
        Ok(ConnectorRoute::Codex)
    } else {
        Ok(ConnectorRoute::Claude)
    }
}

/// The connector a prompt or steer is sent to, or why it cannot be sent.
pub fn route_prompt(session_exists: bool, has_codex: bool, has_claude: bool) -> (r: Result<
    ConnectorRoute,
    DispatchMessageError,
>)
    ensures
        r == prompt_route(session_exists, has_codex, has_claude),
{
    if !session_exists {
        Err(DispatchMessageError::SessionNotFound)
    } else if !has_codex && !has_claude {
        Err(DispatchMessageError::ConnectorUnavailable)
    } else if has_codex {
        Ok(ConnectorRoute::Codex)
    } else {
        Ok(ConnectorRoute::Claude)
    }
}

/// The connector a session command (compact, undo, rollback) goes to: Codex first,
/// `None` when the session has no live connector.
pub fn route_session_command(has_codex: bool, has_claude: bool) -> (r: Option<ConnectorRoute>)
    ensures
        r == (if has_codex {
            Some(ConnectorRoute::Codex)
        } else if has_claude {
            Some(ConnectorRoute::Claude)
        } else {
            None
        }),
{
    if has_codex {
        Some(ConnectorRoute::Codex)
    } else if has_claude {
        Some(ConnectorRoute::Claude)
    } else {
        None
    }
}

/// How long a permission grant lasts.
#[derive(Debug, Clone, Copy, PartialEq, Eq, Structural)]
pub enum PermissionGrantScope {
    Turn,
    Session,
}

/// The decision a permission response is recorded as: denied when it grants nothing,
/// approved for the session when granted for the session, approved otherwise; a
/// response with no scope is for the turn.
pub open spec fn permission_decision_name(grants_nothing: bool, scope: Option<PermissionGrantScope>)
    -> Seq<char> {
    if grants_nothing {
        "denied"@
    } else if scope == Some(PermissionGrantScope::Session) {
        "approved_for_session"@
    } else {
        "approved"@
    }
}

/// The decision a permission response is recorded as.
pub fn permission_decision(grants_nothing: bool, scope: Option<PermissionGrantScope>) -> (r: String)
    ensures
        r@ == permission_decision_name(grants_nothing, scope),
{
    if grants_nothing {
        copy_str("denied")
    } else {
        match scope {
            Some(PermissionGrantScope::Session) => copy_str("approved_for_session"),
            _ => copy_str("approved"),
        }
    }
}

/// What resolving a pending request in the session reported.
#[derive(Debug, Clone)]
pub struct ApprovalResolution {
    pub resolved: bool,
    pub next_pending_request_id: Option<String>,
    pub approval_version: u64,
}

/// What answering a pending request reports back.
#[derive(Debug, Clone)]
pub struct AnswerQuestionResult {
    pub outcome: String,
    pub active_request_id: Option<String>,
    pub approval_version: u64,
}

/// Whether an answer is stale: the session reported that the request was no longer
/// pending. An answer whose resolution went unreported goes ahead.
pub open spec fn is_stale(resolution: Option<ApprovalResolution>) -> bool {
    resolution matches Some(res) && !res.resolved
}

/// What answering a pending request reports: `stale` when the request was no longer
/// pending (and nothing more is done), `applied` otherwise; with the request now
/// pending and the approval version the session reported, none and 0 when it reported
/// nothing.
pub fn answer_result(resolution: Option<ApprovalResolution>) -> (r: AnswerQuestionResult)
    ensures
        r.outcome@ == (if is_stale(resolution) {
            "stale"@
        } else {
            "applied"@
        }),
        r.active_request_id == (match resolution {
            Some(res) => res.next_pending_request_id,
            None => None,
        }),
        r.approval_version == (match resolution {
            Some(res) => res.approval_version,
            None => 0,
        }),
{
    match resolution {
        Some(res) => AnswerQuestionResult {
            outcome: if res.resolved {
                copy_str("applied")
            } else {
                copy_str("stale")
            },
            active_request_id: res.next_pending_request_id,
            approval_version: res.approval_version,
        },
        None => AnswerQuestionResult {
            outcome: copy_str("applied"),
            active_request_id: None,
            approval_version: 0,
        },
    }
}

/// The answer recorded on a question's row: the answer given, or, when it is empty,
/// every selected answer on a line of its own.
pub open spec fn recorded_answer(answer: Seq<char>, selected: Seq<Seq<char>>) -> Seq<char> {
    if answer.len() == 0 {
        join_with(selected, '\n')
    } else {
        answer
    }
}

/// The answer recorded on a question's row, from the answer given and the selected
/// answers in the order they are listed.
pub fn answer_record_text(answer: &str, selected: &Vec<String>) -> (r: String)
    ensures
        r@ == recorded_answer(answer@, selected@.map_values(|s: String| s@)),
{
    if answer.unicode_len() > 0 {
        return copy_str(answer);
    }
    let ghost parts = selected@.map_values(|s: String| s@);
    let mut out = String::new();
    let mut i: usize = 0;
    while i < selected.len()
        invariant
            i <= selected@.len(),
            parts == selected@.map_values(|s: String| s@),
            out@ == join_with(parts.take(i as int), '\n'),
        decreases selected.len() - i,
    {
        let ghost before = out@;
        if i > 0 {
            push_char(&mut out, '\n');
        }
        out.append(selected[i].as_str());
        proof {
            let t = parts.take(i as int + 1);
            assert(t.drop_last() =~= parts.take(i as int));
            assert(t.last() == selected@[i as int]@);
            if i == 0 {
                assert(t.len() == 1);
            }
        }
        i = i + 1;
    }
    proof {
        assert(parts.take(selected@.len() as int) =~= parts);
    }
    out
}

/// What the send plan decided for a prompt: the model and effort handed to the
/// connector, the first prompt to record when this is the session's first, and the
/// effort to store on the session.
#[derive(Debug, Clone)]
pub struct PromptPlan {
    pub action_model: Option<String>,
    pub connector_effort: Option<String>,
    pub first_prompt: Option<String>,
    pub session_effort_update: Option<String>,
}

/// How handing a prompt to its connector went.
#[derive(Debug, Clone, Copy, PartialEq, Eq, Structural)]
pub enum PromptSendOutcome {
    Delivered,
    ChannelClosed,
}

/// One thing to do after a prompt was handed to its connector.
#[derive(Debug, Clone, PartialEq, Eq)]
pub enum PromptAction {
    /// Forget the connector's closed channel.
    DropChannel(ConnectorRoute),
    /// Mark the session's direct connector as detached.
    MarkDetached(ConnectorRoute),
    /// Add the user's row to the conversation and broadcast it.
    AddUserRow,
    /// Count the prompt, recording the first prompt when there is one.
    PersistPromptIncrement { first_prompt: Option<String> },
    /// Store the first prompt on the session and let it be named from it.
    ApplyFirstPrompt(String),
    /// Store and apply the model the prompt ran with.
    UpdateModel(String),
    /// Store and apply the session's new effort.
    UpdateEffort(String),
    /// Mark the session as working.
    MarkWorking,
}

/// The action of an optional value, or none.
pub open spec fn action_if(v: Option<String>, f: spec_fn(String) -> PromptAction) -> Seq<PromptAction> {
    match v {
        Some(x) => seq![f(x)],
        None => Seq::empty(),
    }
}

/// What follows handing a prompt to its connector. A closed channel is forgotten, the
/// session's connector is marked detached and the prompt fails as having no connector,
/// with no row added. A delivered prompt adds the user's row, counts the prompt (with
/// the first prompt, if any), then stores the first prompt, the model and the effort
/// the plan gives, in that order, and marks the session working.
pub open spec fn prompt_follow_up(route: ConnectorRoute, plan: PromptPlan, outcome: PromptSendOutcome)
    -> (Seq<PromptAction>, Result<(), DispatchMessageError>) {
    match outcome {
        PromptSendOutcome::ChannelClosed => (
            seq![PromptAction::DropChannel(route), PromptAction::MarkDetached(route)],
            Err(DispatchMessageError::ConnectorUnavailable),
        ),
        PromptSendOutcome::Delivered => (
            seq![
                PromptAction::AddUserRow,
                PromptAction::PersistPromptIncrement { first_prompt: plan.first_prompt },
            ] + action_if(plan.first_prompt, |p: String| PromptAction::ApplyFirstPrompt(p))
                + action_if(plan.action_model, |m: String| PromptAction::UpdateModel(m))
                + action_if(plan.session_effort_update, |e: String| PromptAction::UpdateEffort(e))
                + seq![PromptAction::MarkWorking],
            Ok(()),
        ),
    }
}

/// The actions that follow handing a prompt to its connector, and what the dispatch
/// returns; see `prompt_follow_up`.
pub fn after_prompt_send(route: ConnectorRoute, plan: PromptPlan, outcome: PromptSendOutcome) -> (r: (
    Vec<PromptAction>,
    Result<(), DispatchMessageError>,
))
    ensures
        r.0@ == prompt_follow_up(route, plan, outcome).0,
        r.1 == prompt_follow_up(route, plan, outcome).1,
{
    match outcome {
        PromptSendOutcome::ChannelClosed => {
            let mut actions: Vec<PromptAction> = Vec::new();
            actions.push(PromptAction::DropChannel(route));
            actions.push(PromptAction::MarkDetached(route));
            assert(actions@ =~= prompt_follow_up(route, plan, outcome).0);
            (actions, Err(DispatchMessageError::ConnectorUnavailable))
        },
        PromptSendOutcome::Delivered => {
            let ghost p = plan;
            let mut actions: Vec<PromptAction> = Vec::new();
            actions.push(PromptAction::AddUserRow);
            actions.push(
                PromptAction::PersistPromptIncrement { first_prompt: clone_opt(&plan.first_prompt) },
            );
            let ghost a0 = actions@;
            match plan.first_prompt {
                Some(x) => actions.push(PromptAction::ApplyFirstPrompt(x)),
                None => {},
            }
            assert(actions@ =~= a0 + action_if(p.first_prompt, |x: String| PromptAction::ApplyFirstPrompt(x)));
            let ghost a1 = actions@;
            match plan.action_model {
                Some(x) => actions.push(PromptAction::UpdateModel(x)),
                None => {},
            }
            assert(actions@ =~= a1 + action_if(p.action_model, |x: String| PromptAction::UpdateModel(x)));
            let ghost a2 = actions@;
            match plan.session_effort_update {
                Some(x) => actions.push(PromptAction::UpdateEffort(x)),
                None => {},
            }
            assert(actions@ =~= a2 + action_if(p.session_effort_update, |x: String| PromptAction::UpdateEffort(x)));
            actions.push(PromptAction::MarkWorking);
            assert(actions@ =~= prompt_follow_up(route, p, outcome).0);
            (actions, Ok(()))
        },
    }
}

fn clone_opt(v: &Option<String>) -> (r: Option<String>)
    ensures
        r == *v,
{
    match v {
        Some(x) => Some(x.clone()),
        None => None,
    }
}

/// A prompt whose connector's channel has closed adds no row and fails as having no
/// connector; a delivered one always adds the row first and ends by marking the
/// session working.
pub proof fn failed_send_adds_no_row(route: ConnectorRoute, plan: PromptPlan)
    ensures
        !prompt_follow_up(route, plan, PromptSendOutcome::ChannelClosed).0.contains(
            PromptAction::AddUserRow,
        ),
        prompt_follow_up(route, plan, PromptSendOutcome::ChannelClosed).1 == Err::<
            (),
            DispatchMessageError,
        >(DispatchMessageError::ConnectorUnavailable),
        prompt_follow_up(route, plan, PromptSendOutcome::Delivered).0[0] == PromptAction::AddUserRow,
        prompt_follow_up(route, plan, PromptSendOutcome::Delivered).0.last() == PromptAction::MarkWorking,
{
    let s = prompt_follow_up(route, plan, PromptSendOutcome::ChannelClosed).0;
    assert(s[0] != PromptAction::AddUserRow && s[1] != PromptAction::AddUserRow);
    assert(!s.contains(PromptAction::AddUserRow)) by {
        if s.contains(PromptAction::AddUserRow) {
            let i = choose|i: int| 0 <= i < s.len() && s[i] == PromptAction::AddUserRow;
            assert(i == 0 || i == 1);
        }
    }
}

} // verus!
