//! Taking over a passive Codex session: how its connector is launched, and what follows
//! once the launch has come to an end. The launch, the wait and the effects themselves
//! are the caller's; the decisions between them are made here.
use vstd::prelude::*;

use crate::session_errors::TakeoverSessionError;
use crate::text::copy_str;

verus! {

/// How the connector of a taken-over Codex session is started.
#[derive(Debug, Clone)]
pub enum ConnectorLaunch {
    /// Resume the thread the session is known to have.
    Resume { thread_id: String },
    /// Start the session on a new thread.
    NewThread,
}

/// The first launch: resume the session's thread where it has one, else a new thread.
pub open spec fn first_launch_of(known_thread: Option<String>) -> ConnectorLaunch {
    match known_thread {
        Some(thread_id) => ConnectorLaunch::Resume { thread_id },
        None => ConnectorLaunch::NewThread,
    }
}

/// The launch that follows a failed one: a failed resume falls back to a new thread, and
/// a failed new thread is final.
pub open spec fn launch_after_failure_of(failed: ConnectorLaunch) -> Option<ConnectorLaunch> {
    match failed {
        ConnectorLaunch::Resume { .. } => Some(ConnectorLaunch::NewThread),
        ConnectorLaunch::NewThread => None,
    }
}

/// The first launch of a takeover's connector.
pub fn first_connector_launch(known_thread: Option<String>) -> (r: ConnectorLaunch)
    ensures
        r == first_launch_of(known_thread),
{
    match known_thread {
        Some(thread_id) => ConnectorLaunch::Resume { thread_id },
        None => ConnectorLaunch::NewThread,
    }
}

/// The launch to try after `failed` did not start, if any.
pub fn launch_after_failure(failed: &ConnectorLaunch) -> (r: Option<ConnectorLaunch>)
    ensures
        r == launch_after_failure_of(*failed),
{
    match failed {
        ConnectorLaunch::Resume { .. } => Some(ConnectorLaunch::NewThread),
        ConnectorLaunch::NewThread => None,
    }
}

/// What starting a takeover's connector came to.
#[derive(Debug, Clone)]
pub enum ConnectorStartOutcome {
    /// The connector runs, on the given thread.
    Started { thread_id: String },
    /// Every launch failed; the last failure's message.
    Failed(String),
    /// The task that launched it stopped before it answered; what it stopped with.
    TaskPanicked(String),
    /// No answer came in time.
    TimedOut,
}

/// An effect that follows a takeover's connector start.
#[derive(Debug, Clone)]
pub enum TakeoverAction {
    /// Give the session the connector's thread, taking it from any other session.
    ClaimThread { thread_id: String },
    /// Run the session's event loop on the connector and register its actor and actions.
    StartEventLoop,
    /// Persist the session's model.
    PersistModel { model: String },
    /// Persist the session's reasoning effort.
    PersistEffort { effort: String },
    /// Mark the session's runtime as driven directly.
    ActivateDirectRuntime,
    /// Apply the reasoning effort to the session's state, where the session is found.
    ApplyEffort { effort: String },
    /// Persist that the session's Codex integration is direct.
    PersistDirectIntegrationMode,
    /// Stop the launch that did not answer.
    AbortConnector,
    /// Mark the session's Codex integration passive again.
    MarkPassive,
    /// Put the session back in the registry as it was.
    ReaddSession,
}

/// An action for a value that may be absent.
pub open spec fn when_given(v: Option<String>, act: spec_fn(String) -> TakeoverAction) -> Seq<
    TakeoverAction,
> {
    match v {
        Some(x) => seq![act(x)],
        None => Seq::empty(),
    }
}

/// The effects that follow a connector start: once started, the thread is claimed, the
/// event loop runs, model and effort are persisted where given, the runtime is activated,
/// the effort applied and the direct integration persisted; once failed, the session is
/// passive again and back in the registry, a launch that did not answer stopped first.
pub open spec fn follow_up_actions(
    outcome: ConnectorStartOutcome,
    model: Option<String>,
    effort: Option<String>,
) -> Seq<TakeoverAction> {
    match outcome {
        ConnectorStartOutcome::Started { thread_id } => seq![
            TakeoverAction::ClaimThread { thread_id },
            TakeoverAction::StartEventLoop,
        ] + when_given(model, |m: String| TakeoverAction::PersistModel { model: m })
            + when_given(effort, |e: String| TakeoverAction::PersistEffort { effort: e })
            + seq![TakeoverAction::ActivateDirectRuntime]
            + when_given(effort, |e: String| TakeoverAction::ApplyEffort { effort: e })
            + seq![TakeoverAction::PersistDirectIntegrationMode],
        ConnectorStartOutcome::TimedOut => seq![
            TakeoverAction::AbortConnector,
            TakeoverAction::MarkPassive,
            TakeoverAction::ReaddSession,
        ],
        _ => seq![TakeoverAction::MarkPassive, TakeoverAction::ReaddSession],
    }
}

/// What the takeover answers for a connector start: success once started, else a
/// connector failure with the launch's message, a note of the stopped task, or a timeout.
pub open spec fn follow_up_answer(
    outcome: ConnectorStartOutcome,
    answer: Result<(), TakeoverSessionError>,
) -> bool {
    match outcome {
        ConnectorStartOutcome::Started { .. } => answer is Ok,
        ConnectorStartOutcome::Failed(m) => answer == Err::<(), TakeoverSessionError>(
            TakeoverSessionError::ConnectorFailed(m),
        ),
        ConnectorStartOutcome::TaskPanicked(j) => (answer matches Err(
            TakeoverSessionError::ConnectorFailed(m),
        ) && m@ == "Connector task panicked: "@ + j@),
        ConnectorStartOutcome::TimedOut => (answer matches Err(
            TakeoverSessionError::ConnectorFailed(m),
        ) && m@ == "Codex takeover connector failed or timed out"@),
    }
}

fn push_if_given(actions: &mut Vec<TakeoverAction>, v: &Option<String>, effort: bool)
    ensures
        final(actions)@ == old(actions)@ + (if effort {
            when_given(*v, |e: String| TakeoverAction::PersistEffort { effort: e })
        } else {
            when_given(*v, |m: String| TakeoverAction::PersistModel { model: m })
        }),
{
    match v {
        Some(x) => {
            if effort {
                actions.push(TakeoverAction::PersistEffort { effort: x.clone() });
            } else {
                actions.push(TakeoverAction::PersistModel { model: x.clone() });
            }
        },
        None => {},
    }
}

/// What follows a takeover's connector start, and what the takeover answers: see
/// `follow_up_actions` and `follow_up_answer`.
pub fn takeover_follow_up(
    outcome: ConnectorStartOutcome,
    model: Option<String>,
    effort: Option<String>,
) -> (r: (Vec<TakeoverAction>, Result<(), TakeoverSessionError>))
    ensures
        r.0@ == follow_up_actions(outcome, model, effort),
        follow_up_answer(outcome, r.1),
{
    let ghost (o, m, e) = (outcome, model, effort);
    let mut actions: Vec<TakeoverAction> = Vec::new();
    match outcome {
        ConnectorStartOutcome::Started { thread_id } => {
            actions.push(TakeoverAction::ClaimThread { thread_id });
            actions.push(TakeoverAction::StartEventLoop);
            push_if_given(&mut actions, &model, false);
            push_if_given(&mut actions, &effort, true);
            actions.push(TakeoverAction::ActivateDirectRuntime);
            match effort {
                Some(x) => actions.push(TakeoverAction::ApplyEffort { effort: x }),
                None => {},
            }
            actions.push(TakeoverAction::PersistDirectIntegrationMode);
            assert(actions@ =~= follow_up_actions(o, m, e));
            (actions, Ok(()))
        },
        ConnectorStartOutcome::Failed(message) => {
            actions.push(TakeoverAction::MarkPassive);
            actions.push(TakeoverAction::ReaddSession);
            assert(actions@ =~= follow_up_actions(o, m, e));
            (actions, Err(TakeoverSessionError::ConnectorFailed(message)))
        },
        ConnectorStartOutcome::TaskPanicked(join_error) => {
            actions.push(TakeoverAction::MarkPassive);
            actions.push(TakeoverAction::ReaddSession);
            assert(actions@ =~= follow_up_actions(o, m, e));
            let mut message = copy_str("Connector task panicked: ");
            message.append(join_error.as_str());
            (actions, Err(TakeoverSessionError::ConnectorFailed(message)))
        },
        ConnectorStartOutcome::TimedOut => {
            actions.push(TakeoverAction::AbortConnector);
            actions.push(TakeoverAction::MarkPassive);
            actions.push(TakeoverAction::ReaddSession);
            assert(actions@ =~= follow_up_actions(o, m, e));
            (
                actions,
                Err(
                    TakeoverSessionError::ConnectorFailed(
                        copy_str("Codex takeover connector failed or timed out"),
                    ),
                ),
            )
        },
    }
}

/// A takeover whose connector did not start fails, and leaves the session passive and
/// back in the registry; one whose connector started succeeds and ends by persisting the
/// direct integration.
pub proof fn failed_takeover_returns_the_session(
    outcome: ConnectorStartOutcome,
    model: Option<String>,
    effort: Option<String>,
    answer: Result<(), TakeoverSessionError>,
)
    requires
        follow_up_answer(outcome, answer),
    ensures
        (outcome is Started) <==> (answer is Ok),
        !(outcome is Started) ==> {
            let a = follow_up_actions(outcome, model, effort);
            &&& a.len() >= 2
            &&& a[a.len() - 2] == TakeoverAction::MarkPassive
            &&& a[a.len() - 1] == TakeoverAction::ReaddSession
        },
        (outcome is Started) ==> {
            let a = follow_up_actions(outcome, model, effort);
            &&& a.len() >= 4
            &&& a[0] == (TakeoverAction::ClaimThread { thread_id: outcome->thread_id })
            &&& a[a.len() - 1] == TakeoverAction::PersistDirectIntegrationMode
            &&& a.contains(TakeoverAction::ActivateDirectRuntime)
        },
{
    if outcome is Started {
        let a = follow_up_actions(outcome, model, effort);
        let pre = seq![
            TakeoverAction::ClaimThread { thread_id: outcome->thread_id },
            TakeoverAction::StartEventLoop,
        ] + when_given(model, |m: String| TakeoverAction::PersistModel { model: m })
            + when_given(effort, |e: String| TakeoverAction::PersistEffort { effort: e });
        assert(a[pre.len() as int] == TakeoverAction::ActivateDirectRuntime);
    }
}

} // verus!
