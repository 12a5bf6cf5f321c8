//! Errors of session operations with the codes and messages clients receive, and the
//! permission-mode write a takeover makes.
use vstd::prelude::*;

use crate::text::copy_str;

verus! {

/// Why renaming or reconfiguring a session failed.
#[derive(Debug, Clone)]
pub enum SessionMutationError {
    NotFound(String),
    InvalidCodexConfig(String),
}

impl SessionMutationError {
    /// Machine-readable code of the error.
    pub fn code(&self) -> (r: &'static str)
        ensures
            r@ == match *self {
                SessionMutationError::NotFound(_) => "not_found"@,
                SessionMutationError::InvalidCodexConfig(_) => "invalid_codex_config"@,
            },
    {
        match self {
            SessionMutationError::NotFound(_) => "not_found",
            SessionMutationError::InvalidCodexConfig(_) => "invalid_codex_config",
        }
    }

    /// Message shown to the client.
    pub fn message(&self) -> (r: String)
        ensures
            r@ == match *self {
                SessionMutationError::NotFound(id) => "Session "@ + id@ + " not found"@,
                SessionMutationError::InvalidCodexConfig(m) => m@,
            },
    {
        match self {
            SessionMutationError::NotFound(session_id) => {
                let mut r = copy_str("Session ");
                r.append(session_id.as_str());
                r.append(" not found");
                r
            },
            SessionMutationError::InvalidCodexConfig(message) => message.clone(),
        }
    }
}

/// Why resuming a session failed.
#[derive(Debug, Clone, Copy, PartialEq, Eq, Structural)]
pub enum ResumeSessionError {
    MissingClaudeResumeId,
}

impl ResumeSessionError {
    /// Machine-readable code of the error.
    pub fn code(&self) -> (r: &'static str)
        ensures
            r@ == "resume_failed"@,
    {
        match self {
            ResumeSessionError::MissingClaudeResumeId => "resume_failed",
        }
    }

    /// Message shown to the client.
    pub fn message(&self) -> (r: String)
        ensures
            r@ == "Cannot resume — no valid provider session ID was saved"@,
    {
        match self {
            ResumeSessionError::MissingClaudeResumeId => copy_str(
                "Cannot resume — no valid provider session ID was saved",
            ),
        }
    }
}

/// Why taking over a passive session failed.
#[derive(Debug, Clone)]
pub enum TakeoverSessionError {
    NotFound(String),
    NotPassive(String),
    TakeHandleFailed,
    ConnectorFailed(String),
}

impl TakeoverSessionError {
    /// Machine-readable code of the error.
    pub fn code(&self) -> (r: &'static str)
        ensures
            r@ == match *self {
                TakeoverSessionError::NotFound(_) => "not_found"@,
                TakeoverSessionError::NotPassive(_) => "not_passive"@,
                TakeoverSessionError::TakeHandleFailed => "take_failed"@,
                TakeoverSessionError::ConnectorFailed(_) => "connector_failed"@,
            },
    {
        match self {
            TakeoverSessionError::NotFound(_) => "not_found",
            TakeoverSessionError::NotPassive(_) => "not_passive",
            TakeoverSessionError::TakeHandleFailed => "take_failed",
            TakeoverSessionError::ConnectorFailed(_) => "connector_failed",
        }
    }

    /// Message shown to the client.
    pub fn message(&self) -> (r: String)
        ensures
            r@ == match *self {
                TakeoverSessionError::NotFound(id) => "Session "@ + id@ + " not found"@,
                TakeoverSessionError::NotPassive(id) => "Session "@ + id@
                    + " is not a passive session — cannot take over"@,
                TakeoverSessionError::TakeHandleFailed => "Failed to take handle from passive session actor"@,
                TakeoverSessionError::ConnectorFailed(m) => m@,
            },
    {
        match self {
            TakeoverSessionError::NotFound(session_id) => {
                let mut r = copy_str("Session ");
                r.append(session_id.as_str());
                r.append(" not found");
                r
            },
            TakeoverSessionError::NotPassive(session_id) => {
                let mut r = copy_str("Session ");
                r.append(session_id.as_str());
                r.append(" is not a passive session — cannot take over");
                r
            },
            TakeoverSessionError::TakeHandleFailed => copy_str(
                "Failed to take handle from passive session actor",
            ),
            TakeoverSessionError::ConnectorFailed(message) => message.clone(),
        }
    }
}

/// Why a message could not be dispatched to a session.
#[derive(Debug, Clone, Copy, PartialEq, Eq, Structural)]
pub enum DispatchMessageError {
    SessionNotFound,
    ConnectorUnavailable,
}

/// Why a control deck turn could not be submitted.
#[derive(Debug, Clone, PartialEq, Eq)]
pub enum ControlDeckSubmitError {
    InvalidRequest(String),
    SessionNotFound,
    ConnectorUnavailable,
}

/// The control deck reports a dispatch failure as the same kind of failure.
pub fn map_dispatch_error(error: DispatchMessageError) -> (r: ControlDeckSubmitError)
    ensures
        r == match error {
            DispatchMessageError::SessionNotFound => ControlDeckSubmitError::SessionNotFound,
            DispatchMessageError::ConnectorUnavailable => ControlDeckSubmitError::ConnectorUnavailable,
        },
{
    match error {
        DispatchMessageError::SessionNotFound => ControlDeckSubmitError::SessionNotFound,
        DispatchMessageError::ConnectorUnavailable => ControlDeckSubmitError::ConnectorUnavailable,
    }
}

/// A session config write that sets only the permission mode.
#[derive(Debug, Clone)]
pub struct PermissionModePersist {
    pub session_id: String,
    pub permission_mode: String,
}

/// The write a takeover makes: the new permission mode, when the takeover is asked to
/// persist it and one is given.
pub fn takeover_permission_persist_op(
    session_id: &str,
    persist_permission_mode: bool,
    permission_mode: Option<String>,
) -> (r: Option<PermissionModePersist>)
    ensures
        match r {
            Some(op) => persist_permission_mode && permission_mode == Some(op.permission_mode)
                && op.session_id@ == session_id@,
            None => !persist_permission_mode || permission_mode is None,
        },
{
    if !persist_permission_mode {
        return None;
    }
    match permission_mode {
        Some(mode) => Some(PermissionModePersist { session_id: copy_str(session_id), permission_mode: mode }),
        None => None,
    }
}

/// Why a session's control deck could not be loaded.
#[derive(Debug, Clone, PartialEq, Eq)]
pub enum ControlDeckSnapshotLoadError {
    NotFound,
    Db(String),
    Runtime(String),
}

/// Why a control deck configuration change failed.
#[derive(Debug, Clone, PartialEq, Eq)]
pub enum ControlDeckConfigUpdateError {
    NotFound,
    InvalidConfig(String),
    Db(String),
    Runtime(String),
}

/// A refused configuration change as the control deck reports it: a missing session as
/// not found, an invalid Codex configuration with its message.
pub fn config_update_error_of_mutation(error: SessionMutationError) -> (r:
    ControlDeckConfigUpdateError)
    ensures
        r == match error {
            SessionMutationError::NotFound(_) => ControlDeckConfigUpdateError::NotFound,
            SessionMutationError::InvalidCodexConfig(m) => ControlDeckConfigUpdateError::InvalidConfig(m),
        },
{
    match error {
        SessionMutationError::NotFound(_) => ControlDeckConfigUpdateError::NotFound,
        SessionMutationError::InvalidCodexConfig(message) => ControlDeckConfigUpdateError::InvalidConfig(message),
    }
}

/// A failure to reload the control deck after a change, as the change reports it: the
/// same kind of failure with the same message.
pub fn config_update_error_of_load(error: ControlDeckSnapshotLoadError) -> (r:
    ControlDeckConfigUpdateError)
    ensures
        r == match error {
            ControlDeckSnapshotLoadError::NotFound => ControlDeckConfigUpdateError::NotFound,
            ControlDeckSnapshotLoadError::Db(m) => ControlDeckConfigUpdateError::Db(m),
            ControlDeckSnapshotLoadError::Runtime(m) => ControlDeckConfigUpdateError::Runtime(m),
        },
{
    match error {
        ControlDeckSnapshotLoadError::NotFound => ControlDeckConfigUpdateError::NotFound,
        ControlDeckSnapshotLoadError::Db(message) => ControlDeckConfigUpdateError::Db(message),
        ControlDeckSnapshotLoadError::Runtime(message) => ControlDeckConfigUpdateError::Runtime(message),
    }
}

} // verus!
