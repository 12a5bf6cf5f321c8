//! Reconfiguring a session: how Codex's approval and sandbox policies are named, what
//! a session's effective settings are, and what an update request turns into.
use vstd::prelude::*;

use crate::codex_config::{
    CodexConfigMode, CodexConfigSelection, CodexConfigSource, CodexSessionOverrides, clone_overrides,
};
use crate::session_errors::SessionMutationError;
use crate::text::{clone_opt_string, copy_str};

verus! {

/// Codex's per-category approval switches of a granular approval policy.
#[derive(Debug, Clone, Copy, PartialEq, Eq, Structural)]
pub struct GranularApprovalConfig {
    pub sandbox_approval: bool,
    pub rules: bool,
    pub skill_approval: bool,
    pub request_permissions: bool,
    pub mcp_elicitations: bool,
}

/// When Codex asks before running a command.
#[derive(Debug, Clone, Copy, PartialEq, Eq, Structural)]
pub enum AskForApproval {
    UnlessTrusted,
    OnFailure,
    OnRequest,
    Granular(GranularApprovalConfig),
    Never,
}

/// What Codex's sandbox lets a command touch.
#[derive(Debug, Clone, Copy, PartialEq, Eq, Structural)]
pub enum SandboxPolicy {
    DangerFullAccess,
    ReadOnly,
    ExternalSandbox,
    WorkspaceWrite,
}

/// A named approval mode as clients see it.
#[derive(Debug, Clone, Copy, PartialEq, Eq, Structural)]
pub enum CodexApprovalMode {
    Untrusted,
    OnFailure,
    OnRequest,
    Never,
}

/// An approval policy as clients see it: a named mode, or per-category switches.
#[derive(Debug, Clone, Copy, PartialEq, Eq, Structural)]
pub enum CodexApprovalPolicy {
    Mode(CodexApprovalMode),
    Granular(GranularApprovalConfig),
}

/// The name clients use for an approval policy; a granular policy reads as `reject`.
pub open spec fn approval_policy_name(p: AskForApproval) -> Seq<char> {
    match p {
        AskForApproval::UnlessTrusted => "untrusted"@,
        AskForApproval::OnFailure => "on-failure"@,
        AskForApproval::OnRequest => "on-request"@,
        AskForApproval::Granular(_) => "reject"@,
        AskForApproval::Never => "never"@,
    }
}

/// The client view of an approval policy.
pub open spec fn approval_policy_details(p: AskForApproval) -> CodexApprovalPolicy {
    match p {
        AskForApproval::UnlessTrusted => CodexApprovalPolicy::Mode(CodexApprovalMode::Untrusted),
        AskForApproval::OnFailure => CodexApprovalPolicy::Mode(CodexApprovalMode::OnFailure),
        AskForApproval::OnRequest => CodexApprovalPolicy::Mode(CodexApprovalMode::OnRequest),
        AskForApproval::Granular(g) => CodexApprovalPolicy::Granular(g),
        AskForApproval::Never => CodexApprovalPolicy::Mode(CodexApprovalMode::Never),
    }
}

/// The name an approval policy is summed up by where only a name fits: a named mode by
/// its name, a granular policy as `reject`, as Codex's own policy is named.
pub open spec fn approval_summary_name(p: CodexApprovalPolicy) -> Seq<char> {
    match p {
        CodexApprovalPolicy::Mode(CodexApprovalMode::Untrusted) => "untrusted"@,
        CodexApprovalPolicy::Mode(CodexApprovalMode::OnFailure) => "on-failure"@,
        CodexApprovalPolicy::Mode(CodexApprovalMode::OnRequest) => "on-request"@,
        CodexApprovalPolicy::Mode(CodexApprovalMode::Never) => "never"@,
        CodexApprovalPolicy::Granular(_) => "reject"@,
    }
}

impl CodexApprovalPolicy {
    /// The policy's name where only a name fits.
    pub fn legacy_summary(&self) -> (r: String)
        ensures
            r@ == approval_summary_name(*self),
    {
        match self {
            CodexApprovalPolicy::Mode(CodexApprovalMode::Untrusted) => copy_str("untrusted"),
            CodexApprovalPolicy::Mode(CodexApprovalMode::OnFailure) => copy_str("on-failure"),
            CodexApprovalPolicy::Mode(CodexApprovalMode::OnRequest) => copy_str("on-request"),
            CodexApprovalPolicy::Mode(CodexApprovalMode::Never) => copy_str("never"),
            CodexApprovalPolicy::Granular(_) => copy_str("reject"),
        }
    }
}

/// The client view of Codex's approval policy is summed up by the name that policy has.
pub proof fn approval_summary_matches_policy_name(p: AskForApproval)
    ensures
        approval_summary_name(approval_policy_details(p)) == approval_policy_name(p),
{
}

/// The name clients use for a sandbox policy; an external sandbox reads as read-only.
pub open spec fn sandbox_policy_name(p: SandboxPolicy) -> Seq<char> {
    match p {
        SandboxPolicy::DangerFullAccess => "danger-full-access"@,
        SandboxPolicy::ReadOnly => "read-only"@,
        SandboxPolicy::ExternalSandbox => "read-only"@,
        SandboxPolicy::WorkspaceWrite => "workspace-write"@,
    }
}

/// The name of Codex's approval policy.
pub fn core_approval_policy_to_string(value: AskForApproval) -> (r: String)
    ensures
        r@ == approval_policy_name(value),
{
    match value {
        AskForApproval::UnlessTrusted => copy_str("untrusted"),
        AskForApproval::OnFailure => copy_str("on-failure"),
        AskForApproval::OnRequest => copy_str("on-request"),
        AskForApproval::Granular(_) => copy_str("reject"),
        AskForApproval::Never => copy_str("never"),
    }
}

/// Codex's approval policy as clients see it.
pub fn core_approval_policy_to_details(value: AskForApproval) -> (r: CodexApprovalPolicy)
    ensures
        r == approval_policy_details(value),
{
    match value {
        AskForApproval::UnlessTrusted => CodexApprovalPolicy::Mode(CodexApprovalMode::Untrusted),
        AskForApproval::OnFailure => CodexApprovalPolicy::Mode(CodexApprovalMode::OnFailure),
        AskForApproval::OnRequest => CodexApprovalPolicy::Mode(CodexApprovalMode::OnRequest),
        AskForApproval::Granular(config) => CodexApprovalPolicy::Granular(config),
        AskForApproval::Never => CodexApprovalPolicy::Mode(CodexApprovalMode::Never),
    }
}

/// The name of Codex's sandbox policy.
pub fn core_sandbox_policy_to_string(value: &SandboxPolicy) -> (r: String)
    ensures
        r@ == sandbox_policy_name(*value),
{
    match value {
        SandboxPolicy::DangerFullAccess => copy_str("danger-full-access"),
        SandboxPolicy::ReadOnly => copy_str("read-only"),
        SandboxPolicy::ExternalSandbox => copy_str("read-only"),
        SandboxPolicy::WorkspaceWrite => copy_str("workspace-write"),
    }
}


/// What the settings read of the configuration Codex builds for a session.
#[derive(Debug, Clone)]
pub struct CoreConfigView {
    pub active_profile: Option<String>,
    pub model: Option<String>,
    pub model_provider_id: String,
    pub approval_policy: AskForApproval,
    pub sandbox_policy: SandboxPolicy,
    pub service_tier: Option<String>,
    pub developer_instructions: Option<String>,
    pub model_reasoning_effort: Option<String>,
}

/// The settings a session runs with, as clients see them.
#[derive(Debug, Clone)]
pub struct CodexResolvedSettings {
    pub config_source: CodexConfigSource,
    pub config_mode: CodexConfigMode,
    pub config_profile: Option<String>,
    pub overrides: CodexSessionOverrides,
    pub model: Option<String>,
    pub model_provider: Option<String>,
    pub approval_policy: Option<String>,
    pub approval_policy_details: Option<CodexApprovalPolicy>,
    pub sandbox_mode: Option<String>,
    pub collaboration_mode: Option<String>,
    pub multi_agent: Option<bool>,
    pub personality: Option<String>,
    pub service_tier: Option<String>,
    pub developer_instructions: Option<String>,
    pub effort: Option<String>,
}

/// The first of two optional values that is present.
pub open spec fn or_else<T>(first: Option<T>, second: Option<T>) -> Option<T> {
    match first {
        Some(v) => Some(v),
        None => second,
    }
}

/// The settings a session runs with under Codex's configuration and its selection:
/// model, provider, policies, tier and effort come from the configuration, source, mode
/// and overrides from the selection; the collaboration mode, multi-agent switch and
/// personality are the session's overrides, and the configuration's developer
/// instructions win over the session's.
pub fn effective_settings(config: &CoreConfigView, selection: &CodexConfigSelection) -> (r:
    CodexResolvedSettings)
    ensures
        r.config_source == selection.config_source,
        r.config_mode == selection.config_mode,
        r.config_profile == config.active_profile,
        r.overrides == selection.overrides,
        r.model == config.model,
        r.model_provider == Some(config.model_provider_id),
        r.approval_policy matches Some(a) && a@ == approval_policy_name(config.approval_policy),
        r.approval_policy_details == Some(approval_policy_details(config.approval_policy)),
        r.sandbox_mode matches Some(m) && m@ == sandbox_policy_name(config.sandbox_policy),
        r.collaboration_mode == selection.overrides.collaboration_mode,
        r.multi_agent == selection.overrides.multi_agent,
        r.personality == selection.overrides.personality,
        r.service_tier == config.service_tier,
        r.developer_instructions == or_else(
            config.developer_instructions,
            selection.overrides.developer_instructions,
        ),
        r.effort == config.model_reasoning_effort,
{
    let developer_instructions = match &config.developer_instructions {
        Some(v) => Some(v.clone()),
        None => clone_opt_string(&selection.overrides.developer_instructions),
    };
    CodexResolvedSettings {
        config_source: selection.config_source,
        config_mode: selection.config_mode,
        config_profile: clone_opt_string(&config.active_profile),
        overrides: clone_overrides(&selection.overrides),
        model: clone_opt_string(&config.model),
        model_provider: Some(config.model_provider_id.clone()),
        approval_policy: Some(core_approval_policy_to_string(config.approval_policy)),
        approval_policy_details: Some(core_approval_policy_to_details(config.approval_policy)),
        sandbox_mode: Some(core_sandbox_policy_to_string(&config.sandbox_policy)),
        collaboration_mode: clone_opt_string(&selection.overrides.collaboration_mode),
        multi_agent: selection.overrides.multi_agent,
        personality: clone_opt_string(&selection.overrides.personality),
        service_tier: clone_opt_string(&config.service_tier),
        developer_instructions,
        effort: clone_opt_string(&config.model_reasoning_effort),
    }
}

/// The settings a resumed Codex session's connector is started with; who answers
/// approval requests is the selection's own choice.
#[derive(Debug, Clone)]
pub struct ResumeLaunchSettings {
    pub model: Option<String>,
    pub approval_policy: Option<String>,
    pub sandbox_mode: Option<String>,
    pub collaboration_mode: Option<String>,
    pub multi_agent: Option<bool>,
    pub personality: Option<String>,
    pub service_tier: Option<String>,
    pub developer_instructions: Option<String>,
    pub model_provider: Option<String>,
    pub config_profile: Option<String>,
    pub approvals_reviewer: Option<String>,
}

/// A resolved setting, when resolving gave one.
pub open spec fn resolved_field<T>(
    resolved: Option<CodexResolvedSettings>,
    f: spec_fn(CodexResolvedSettings) -> Option<T>,
) -> Option<T> {
    match resolved {
        Some(r) => f(r),
        None => None,
    }
}

fn first_text(a: Option<String>, b: &Option<String>) -> (r: Option<String>)
    ensures
        r == or_else(a, *b),
{
    match a {
        Some(v) => Some(v),
        None => clone_opt_string(b),
    }
}

/// The settings a resumed Codex session starts with: each the resolved one where
/// resolving the selection gave one (resolving may have failed), else the selection's
/// own override; the provider falls back to the selection's provider, then its
/// override, and the profile to the selection's profile.
pub fn resume_launch_settings(
    selection: &CodexConfigSelection,
    resolved: Option<CodexResolvedSettings>,
) -> (r: ResumeLaunchSettings)
    ensures
        r.model == or_else(resolved_field(resolved, |s: CodexResolvedSettings| s.model), selection.overrides.model),
        r.approval_policy == or_else(
            resolved_field(resolved, |s: CodexResolvedSettings| s.approval_policy),
            selection.overrides.approval_policy,
        ),
        r.sandbox_mode == or_else(
            resolved_field(resolved, |s: CodexResolvedSettings| s.sandbox_mode),
            selection.overrides.sandbox_mode,
        ),
        r.collaboration_mode == or_else(
            resolved_field(resolved, |s: CodexResolvedSettings| s.collaboration_mode),
            selection.overrides.collaboration_mode,
        ),
        r.multi_agent == or_else(
            resolved_field(resolved, |s: CodexResolvedSettings| s.multi_agent),
            selection.overrides.multi_agent,
        ),
        r.personality == or_else(
            resolved_field(resolved, |s: CodexResolvedSettings| s.personality),
            selection.overrides.personality,
        ),
        r.service_tier == or_else(
            resolved_field(resolved, |s: CodexResolvedSettings| s.service_tier),
            selection.overrides.service_tier,
        ),
        r.developer_instructions == or_else(
            resolved_field(resolved, |s: CodexResolvedSettings| s.developer_instructions),
            selection.overrides.developer_instructions,
        ),
        r.model_provider == or_else(
            resolved_field(resolved, |s: CodexResolvedSettings| s.model_provider),
            or_else(selection.model_provider, selection.overrides.model_provider),
        ),
        r.config_profile == or_else(
            resolved_field(resolved, |s: CodexResolvedSettings| s.config_profile),
            selection.config_profile,
        ),
        r.approvals_reviewer == selection.overrides.approvals_reviewer,
{
    let o = &selection.overrides;
    match resolved {
        Some(s) => ResumeLaunchSettings {
            model: first_text(s.model, &o.model),
            approval_policy: first_text(s.approval_policy, &o.approval_policy),
            sandbox_mode: first_text(s.sandbox_mode, &o.sandbox_mode),
            collaboration_mode: first_text(s.collaboration_mode, &o.collaboration_mode),
            multi_agent: match s.multi_agent {
                Some(v) => Some(v),
                None => o.multi_agent,
            },
            personality: first_text(s.personality, &o.personality),
            service_tier: first_text(s.service_tier, &o.service_tier),
            developer_instructions: first_text(s.developer_instructions, &o.developer_instructions),
            model_provider: first_text(
                s.model_provider,
                &first_text(clone_opt_string(&selection.model_provider), &o.model_provider),
            ),
            config_profile: first_text(s.config_profile, &selection.config_profile),
            approvals_reviewer: clone_opt_string(&o.approvals_reviewer),
        },
        None => ResumeLaunchSettings {
            model: clone_opt_string(&o.model),
            approval_policy: clone_opt_string(&o.approval_policy),
            sandbox_mode: clone_opt_string(&o.sandbox_mode),
            collaboration_mode: clone_opt_string(&o.collaboration_mode),
            multi_agent: o.multi_agent,
            personality: clone_opt_string(&o.personality),
            service_tier: clone_opt_string(&o.service_tier),
            developer_instructions: clone_opt_string(&o.developer_instructions),
            model_provider: first_text(clone_opt_string(&selection.model_provider), &o.model_provider),
            config_profile: clone_opt_string(&selection.config_profile),
            approvals_reviewer: clone_opt_string(&o.approvals_reviewer),
        },
    }
}

/// A request to change a session's settings: for each setting, `None` leaves it as it
/// is and `Some(v)` sets it to `v`, which may itself be `None`.
#[derive(Debug, Clone)]
pub struct SessionConfigUpdate {
    pub approval_policy: Option<Option<String>>,
    pub approval_policy_details: Option<Option<CodexApprovalPolicy>>,
    pub sandbox_mode: Option<Option<String>>,
    pub approvals_reviewer: Option<Option<String>>,
    pub permission_mode: Option<Option<String>>,
    pub collaboration_mode: Option<Option<String>>,
    pub multi_agent: Option<Option<bool>>,
    pub personality: Option<Option<String>>,
    pub service_tier: Option<Option<String>>,
    pub developer_instructions: Option<Option<String>>,
    pub model: Option<Option<String>>,
    pub effort: Option<Option<String>>,
    pub codex_config_mode: Option<Option<CodexConfigMode>>,
    pub codex_config_profile: Option<Option<String>>,
    pub codex_model_provider: Option<Option<String>>,
}

/// What an update needs to know of the session it changes.
#[derive(Debug, Clone)]
pub struct SessionConfigContext {
    pub is_codex: bool,
    pub codex_connected: bool,
    pub codex_config_overrides: Option<CodexSessionOverrides>,
    pub codex_config_source: Option<CodexConfigSource>,
    pub codex_config_mode: Option<CodexConfigMode>,
    pub codex_config_profile: Option<String>,
    pub codex_model_provider: Option<String>,
}

/// The changes an update applies to a session and persists; `None` leaves a setting
/// as it is.
#[derive(Debug, Clone)]
pub struct SessionConfigChanges {
    pub approval_policy: Option<Option<String>>,
    pub approval_policy_details: Option<Option<CodexApprovalPolicy>>,
    pub sandbox_mode: Option<Option<String>>,
    pub approvals_reviewer: Option<Option<String>>,
    pub permission_mode: Option<Option<String>>,
    pub collaboration_mode: Option<Option<String>>,
    pub multi_agent: Option<Option<bool>>,
    pub personality: Option<Option<String>>,
    pub service_tier: Option<Option<String>>,
    pub developer_instructions: Option<Option<String>>,
    pub model: Option<Option<String>>,
    pub effort: Option<Option<String>>,
    pub codex_config_mode: Option<Option<CodexConfigMode>>,
    pub codex_config_profile: Option<Option<String>>,
    pub codex_model_provider: Option<Option<String>>,
    pub codex_config_source: Option<CodexConfigSource>,
    pub codex_config_overrides: Option<CodexSessionOverrides>,
}

/// What an update turns into: for a Codex session, a selection for Codex to resolve
/// before anything is applied; for another session, the changes themselves.
#[derive(Debug, Clone)]
pub enum SessionConfigPlan {
    ResolveCodex {
        selection: CodexConfigSelection,
        permission_mode: Option<Option<String>>,
        approvals_reviewer: Option<Option<String>>,
    },
    Apply(SessionConfigChanges),
}

/// A setting after a change: the new value where one is given, else the current one.
pub open spec fn patched<T>(change: Option<Option<T>>, current: Option<T>) -> Option<T> {
    match change {
        Some(v) => v,
        None => current,
    }
}

/// Overrides that override nothing.
pub open spec fn empty_overrides() -> CodexSessionOverrides {
    CodexSessionOverrides {
        model: None,
        model_provider: None,
        approval_policy: None,
        approval_policy_details: None,
        sandbox_mode: None,
        approvals_reviewer: None,
        collaboration_mode: None,
        multi_agent: None,
        personality: None,
        service_tier: None,
        developer_instructions: None,
        effort: None,
    }
}

/// A session's overrides with each override an update names set to the given value;
/// where the update also gives a detailed approval policy, `is_merged_overrides` puts
/// that policy's name in place of the approval policy.
pub open spec fn merged_overrides(current: CodexSessionOverrides, u: SessionConfigUpdate)
    -> CodexSessionOverrides {
    CodexSessionOverrides {
        model: patched(u.model, current.model),
        model_provider: patched(u.codex_model_provider, current.model_provider),
        approval_policy: patched(u.approval_policy, current.approval_policy),
        approval_policy_details: patched(u.approval_policy_details, current.approval_policy_details),
        sandbox_mode: patched(u.sandbox_mode, current.sandbox_mode),
        approvals_reviewer: patched(u.approvals_reviewer, current.approvals_reviewer),
        collaboration_mode: patched(u.collaboration_mode, current.collaboration_mode),
        multi_agent: patched(u.multi_agent, current.multi_agent),
        personality: patched(u.personality, current.personality),
        service_tier: patched(u.service_tier, current.service_tier),
        developer_instructions: patched(u.developer_instructions, current.developer_instructions),
        effort: patched(u.effort, current.effort),
    }
}

/// Whether `r` is a session's overrides with an update's changes laid over them: each
/// override the update names takes the given value and the others keep theirs, but a
/// detailed approval policy the update gives also names the approval policy.
pub open spec fn is_merged_overrides(
    current: CodexSessionOverrides,
    u: SessionConfigUpdate,
    r: CodexSessionOverrides,
) -> bool {
    let m = merged_overrides(current, u);
    &&& r == CodexSessionOverrides { approval_policy: r.approval_policy, ..m }
    &&& match u.approval_policy_details {
        Some(Some(d)) => (r.approval_policy matches Some(a) && a@ == approval_summary_name(d)),
        _ => r.approval_policy == m.approval_policy,
    }
}

/// Two optional texts that are both absent or both present with the same characters.
pub open spec fn same_text(a: Option<String>, b: Option<String>) -> bool {
    match (a, b) {
        (Some(x), Some(y)) => x@ == y@,
        (None, None) => true,
        _ => false,
    }
}

/// Whether an update asks a Codex session that is running to change its mode,
/// profile or provider, which are fixed when it starts.
pub open spec fn changes_fixed_codex_selection(ctx: SessionConfigContext, u: SessionConfigUpdate)
    -> bool {
    &&& ctx.is_codex
    &&& ctx.codex_connected
    &&& (u.codex_config_mode is Some || u.codex_config_profile is Some
        || u.codex_model_provider is Some)
}

/// The mode an update leaves a Codex session in: the one given, inherit where the update
/// clears it, else the session's, inherit where it has none.
pub open spec fn updated_mode(ctx: SessionConfigContext, u: SessionConfigUpdate) -> CodexConfigMode {
    match u.codex_config_mode {
        Some(Some(m)) => m,
        Some(None) => CodexConfigMode::Inherit,
        None => match ctx.codex_config_mode {
            Some(m) => m,
            None => CodexConfigMode::Inherit,
        },
    }
}

/// The selection Codex resolves for an update of a Codex session.
pub open spec fn updated_selection(ctx: SessionConfigContext, u: SessionConfigUpdate)
    -> CodexConfigSelection {
    CodexConfigSelection {
        config_source: match ctx.codex_config_source {
            Some(s) => s,
            None => CodexConfigSource::User,
        },
        config_mode: updated_mode(ctx, u),
        config_profile: patched(u.codex_config_profile, ctx.codex_config_profile),
        model_provider: patched(u.codex_model_provider, ctx.codex_model_provider),
        overrides: merged_overrides(current_overrides(ctx), u),
    }
}

/// The overrides a session has, none where it has none.
pub open spec fn current_overrides(ctx: SessionConfigContext) -> CodexSessionOverrides {
    match ctx.codex_config_overrides {
        Some(o) => o,
        None => empty_overrides(),
    }
}

/// Whether `s` is the selection Codex resolves for an update of a Codex session: the
/// source, mode, profile and provider of `updated_selection`, and the session's
/// overrides merged with the update.
pub open spec fn is_selection_for_update(
    ctx: SessionConfigContext,
    u: SessionConfigUpdate,
    s: CodexConfigSelection,
) -> bool {
    &&& s == CodexConfigSelection { overrides: s.overrides, ..updated_selection(ctx, u) }
    &&& is_merged_overrides(current_overrides(ctx), u, s.overrides)
}

/// The changes of an update to a session that is not a Codex session: its own.
pub open spec fn direct_changes(u: SessionConfigUpdate) -> SessionConfigChanges {
    SessionConfigChanges {
        approval_policy: u.approval_policy,
        approval_policy_details: u.approval_policy_details,
        sandbox_mode: u.sandbox_mode,
        approvals_reviewer: u.approvals_reviewer,
        permission_mode: u.permission_mode,
        collaboration_mode: u.collaboration_mode,
        multi_agent: u.multi_agent,
        personality: u.personality,
        service_tier: u.service_tier,
        developer_instructions: u.developer_instructions,
        model: u.model,
        effort: u.effort,
        codex_config_mode: u.codex_config_mode,
        codex_config_profile: u.codex_config_profile,
        codex_model_provider: u.codex_model_provider,
        codex_config_source: None,
        codex_config_overrides: None,
    }
}

/// The refusal for a change of what a running Codex session fixed when it started.
pub open spec fn fixed_selection_message() -> Seq<char> {
    "Provider and profile selection are set when a Codex session starts. Start a new session to change them."@
}

fn patch_text(change: &Option<Option<String>>, current: &Option<String>) -> (r: Option<String>)
    ensures
        r == patched(*change, *current),
{
    match change {
        Some(v) => clone_opt_string(v),
        None => clone_opt_string(current),
    }
}

fn clone_change(change: &Option<Option<String>>) -> (r: Option<Option<String>>)
    ensures
        r == *change,
{
    match change {
        Some(v) => Some(clone_opt_string(v)),
        None => None,
    }
}

/// A session's overrides with an update's changes laid over them: each override the
/// update names takes the given value, the others keep theirs.
pub fn merge_codex_overrides(current: &CodexSessionOverrides, update: &SessionConfigUpdate) -> (r:
    CodexSessionOverrides)
    ensures
        is_merged_overrides(*current, *update, r),
{
    let approval_policy = match &update.approval_policy_details {
        Some(Some(details)) => Some(details.legacy_summary()),
        _ => patch_text(&update.approval_policy, &current.approval_policy),
    };
    CodexSessionOverrides {
        model: patch_text(&update.model, &current.model),
        model_provider: patch_text(&update.codex_model_provider, &current.model_provider),
        approval_policy,
        approval_policy_details: match update.approval_policy_details {
            Some(v) => v,
            None => current.approval_policy_details,
        },
        sandbox_mode: patch_text(&update.sandbox_mode, &current.sandbox_mode),
        approvals_reviewer: patch_text(&update.approvals_reviewer, &current.approvals_reviewer),
        collaboration_mode: patch_text(&update.collaboration_mode, &current.collaboration_mode),
        multi_agent: match update.multi_agent {
            Some(v) => v,
            None => current.multi_agent,
        },
        personality: patch_text(&update.personality, &current.personality),
        service_tier: patch_text(&update.service_tier, &current.service_tier),
        developer_instructions: patch_text(
            &update.developer_instructions,
            &current.developer_instructions,
        ),
        effort: patch_text(&update.effort, &current.effort),
    }
}

/// What an update of a session's settings turns into. A running Codex session refuses
/// a change of its mode, profile or provider; another Codex session gets the selection
/// to resolve, its overrides merged with the update; any other session gets the update's
/// own changes.
pub fn plan_session_config_update(ctx: &SessionConfigContext, update: &SessionConfigUpdate) -> (r:
    Result<SessionConfigPlan, SessionMutationError>)
    ensures
        changes_fixed_codex_selection(*ctx, *update) <==> r is Err,
        r matches Err(e) ==> e matches SessionMutationError::InvalidCodexConfig(m)
            && m@ == fixed_selection_message(),
        r matches Ok(p) ==> (ctx.is_codex <==> p is ResolveCodex),
        r matches Ok(p) ==> (p is ResolveCodex ==> is_selection_for_update(
            *ctx,
            *update,
            p->selection,
        ) && p->permission_mode == update.permission_mode
            && p->ResolveCodex_approvals_reviewer == update.approvals_reviewer),
        r matches Ok(p) ==> (p is Apply ==> p->Apply_0 == direct_changes(*update)),
{
    if ctx.is_codex && ctx.codex_connected && (update.codex_config_mode.is_some()
        || update.codex_config_profile.is_some() || update.codex_model_provider.is_some()) {
        return Err(
            SessionMutationError::InvalidCodexConfig(
                copy_str(
                    "Provider and profile selection are set when a Codex session starts. Start a new session to change them.",
                ),
            ),
        );
    }
    if ctx.is_codex {
        let current = match &ctx.codex_config_overrides {
            Some(o) => clone_overrides(o),
            None => CodexSessionOverrides::default(),
        };
        let overrides = merge_codex_overrides(&current, update);
        let config_source = match ctx.codex_config_source {
            Some(s) => s,
            None => CodexConfigSource::User,
        };
        let config_mode = match update.codex_config_mode {
            Some(Some(m)) => m,
            Some(None) => CodexConfigMode::Inherit,
            None => match ctx.codex_config_mode {
                Some(m) => m,
                None => CodexConfigMode::Inherit,
            },
        };
        let selection = CodexConfigSelection {
            config_source,
            config_mode,
            config_profile: patch_text(&update.codex_config_profile, &ctx.codex_config_profile),
            model_provider: patch_text(&update.codex_model_provider, &ctx.codex_model_provider),
            overrides,
        };
        Ok(
            SessionConfigPlan::ResolveCodex {
                selection,
                permission_mode: clone_change(&update.permission_mode),
                approvals_reviewer: clone_change(&update.approvals_reviewer),
            },
        )
    } else {
        Ok(
            SessionConfigPlan::Apply(
                SessionConfigChanges {
                    approval_policy: clone_change(&update.approval_policy),
                    approval_policy_details: update.approval_policy_details,
                    sandbox_mode: clone_change(&update.sandbox_mode),
                    approvals_reviewer: clone_change(&update.approvals_reviewer),
                    permission_mode: clone_change(&update.permission_mode),
                    collaboration_mode: clone_change(&update.collaboration_mode),
                    multi_agent: update.multi_agent,
                    personality: clone_change(&update.personality),
                    service_tier: clone_change(&update.service_tier),
                    developer_instructions: clone_change(&update.developer_instructions),
                    model: clone_change(&update.model),
                    effort: clone_change(&update.effort),
                    codex_config_mode: update.codex_config_mode,
                    codex_config_profile: clone_change(&update.codex_config_profile),
                    codex_model_provider: clone_change(&update.codex_model_provider),
                    codex_config_source: None,
                    codex_config_overrides: None,
                },
            ),
        )
    }
}

/// The changes of an update to a Codex session once Codex has resolved its selection:
/// every setting as resolved, the mode, profile, source and overrides as selected.
pub open spec fn resolved_changes(
    selection: CodexConfigSelection,
    permission_mode: Option<Option<String>>,
    approvals_reviewer: Option<Option<String>>,
    resolved: CodexResolvedSettings,
) -> SessionConfigChanges {
    SessionConfigChanges {
        approval_policy: Some(resolved.approval_policy),
        approval_policy_details: Some(resolved.approval_policy_details),
        sandbox_mode: Some(resolved.sandbox_mode),
        approvals_reviewer,
        permission_mode,
        collaboration_mode: Some(resolved.collaboration_mode),
        multi_agent: Some(resolved.multi_agent),
        personality: Some(resolved.personality),
        service_tier: Some(resolved.service_tier),
        developer_instructions: Some(resolved.developer_instructions),
        model: Some(resolved.model),
        effort: Some(resolved.effort),
        codex_config_mode: Some(Some(selection.config_mode)),
        codex_config_profile: Some(selection.config_profile),
        codex_model_provider: Some(resolved.model_provider),
        codex_config_source: Some(selection.config_source),
        codex_config_overrides: Some(selection.overrides),
    }
}

/// Finishes an update of a Codex session with what resolving its selection gave: the
/// resolved settings become the changes, and who answers approval requests is passed on
/// as the update gives it; a failure to resolve refuses the update with Codex's message.
pub fn resolved_config_changes(
    selection: &CodexConfigSelection,
    permission_mode: &Option<Option<String>>,
    approvals_reviewer: &Option<Option<String>>,
    resolved: Result<CodexResolvedSettings, String>,
) -> (r: Result<SessionConfigChanges, SessionMutationError>)
    ensures
        resolved is Ok <==> r is Ok,
        r matches Ok(c) ==> c == resolved_changes(
            *selection,
            *permission_mode,
            *approvals_reviewer,
            resolved->Ok_0,
        ),
        r matches Err(e) ==> e == SessionMutationError::InvalidCodexConfig(resolved->Err_0),
{
    match resolved {
        Err(message) => Err(SessionMutationError::InvalidCodexConfig(message)),
        Ok(settings) => Ok(
            SessionConfigChanges {
                approval_policy: Some(settings.approval_policy),
                approval_policy_details: Some(settings.approval_policy_details),
                sandbox_mode: Some(settings.sandbox_mode),
                approvals_reviewer: clone_change(approvals_reviewer),
                permission_mode: clone_change(permission_mode),
                collaboration_mode: Some(settings.collaboration_mode),
                multi_agent: Some(settings.multi_agent),
                personality: Some(settings.personality),
                service_tier: Some(settings.service_tier),
                developer_instructions: Some(settings.developer_instructions),
                model: Some(settings.model),
                effort: Some(settings.effort),
                codex_config_mode: Some(Some(selection.config_mode)),
                codex_config_profile: Some(clone_opt_string(&selection.config_profile)),
                codex_model_provider: Some(settings.model_provider),
                codex_config_source: Some(selection.config_source),
                codex_config_overrides: Some(clone_overrides(&selection.overrides)),
            },
        ),
    }
}

/// An update that names no setting leaves a session's overrides as they are.
pub proof fn update_naming_nothing_keeps_overrides(
    current: CodexSessionOverrides,
    u: SessionConfigUpdate,
    merged: CodexSessionOverrides,
)
    requires
        is_merged_overrides(current, u, merged),
        u.model is None,
        u.codex_model_provider is None,
        u.approval_policy is None,
        u.approval_policy_details is None,
        u.approvals_reviewer is None,
        u.sandbox_mode is None,
        u.collaboration_mode is None,
        u.multi_agent is None,
        u.personality is None,
        u.service_tier is None,
        u.developer_instructions is None,
        u.effort is None,
    ensures
        merged == current,
{
}

/// Applying the same update twice gives what applying it once gives: the same overrides,
/// the approval policy with the same text.
pub proof fn merging_an_update_twice_changes_nothing_more(
    current: CodexSessionOverrides,
    u: SessionConfigUpdate,
    once: CodexSessionOverrides,
    twice: CodexSessionOverrides,
)
    requires
        is_merged_overrides(current, u, once),
        is_merged_overrides(once, u, twice),
    ensures
        twice == (CodexSessionOverrides { approval_policy: twice.approval_policy, ..once }),
        same_text(twice.approval_policy, once.approval_policy),
{
}

/// A running Codex session keeps the mode, profile and provider it started with: an
/// update that is accepted names none of them.
pub proof fn running_codex_session_keeps_its_selection(
    ctx: SessionConfigContext,
    u: SessionConfigUpdate,
)
    requires
        ctx.is_codex,
        ctx.codex_connected,
        !changes_fixed_codex_selection(ctx, u),
    ensures
        updated_selection(ctx, u).config_profile == ctx.codex_config_profile,
        updated_selection(ctx, u).model_provider == ctx.codex_model_provider,
        ctx.codex_config_mode is Some ==> updated_selection(ctx, u).config_mode
            == ctx.codex_config_mode->Some_0,
{
}

/// A configuration change asked for from the control deck; a setting it does not give
/// is left as it is.
#[derive(Debug, Clone)]
pub struct ControlDeckConfigUpdate {
    pub approval_policy: Option<String>,
    pub approval_policy_details: Option<CodexApprovalPolicy>,
    pub sandbox_mode: Option<String>,
    pub approvals_reviewer: Option<String>,
    pub permission_mode: Option<String>,
    pub collaboration_mode: Option<String>,
    pub model: Option<String>,
    pub effort: Option<String>,
}

/// A setting the control deck gives, as a change that sets it.
pub open spec fn set_if_given<T>(v: Option<T>) -> Option<Option<T>> {
    match v {
        Some(x) => Some(Some(x)),
        None => None,
    }
}

fn set_text_if_given(v: Option<String>) -> (r: Option<Option<String>>)
    ensures
        r == set_if_given(v),
{
    match v {
        Some(x) => Some(Some(x)),
        None => None,
    }
}

/// The session update a control deck change makes: each setting it gives is set, every
/// other setting is left as it is.
pub open spec fn session_update_of_deck(update: ControlDeckConfigUpdate) -> SessionConfigUpdate {
    SessionConfigUpdate {
        approval_policy: set_if_given(update.approval_policy),
        approval_policy_details: set_if_given(update.approval_policy_details),
        sandbox_mode: set_if_given(update.sandbox_mode),
        approvals_reviewer: set_if_given(update.approvals_reviewer),
        permission_mode: set_if_given(update.permission_mode),
        collaboration_mode: set_if_given(update.collaboration_mode),
        multi_agent: None,
        personality: None,
        service_tier: None,
        developer_instructions: None,
        model: set_if_given(update.model),
        effort: set_if_given(update.effort),
        codex_config_mode: None,
        codex_config_profile: None,
        codex_model_provider: None,
    }
}

/// The session update a control deck change makes.
pub fn control_deck_session_update(update: ControlDeckConfigUpdate) -> (r: SessionConfigUpdate)
    ensures
        r == session_update_of_deck(update),
{
    SessionConfigUpdate {
        approval_policy: set_text_if_given(update.approval_policy),
        approval_policy_details: match update.approval_policy_details {
            Some(d) => Some(Some(d)),
            None => None,
        },
        sandbox_mode: set_text_if_given(update.sandbox_mode),
        approvals_reviewer: set_text_if_given(update.approvals_reviewer),
        permission_mode: set_text_if_given(update.permission_mode),
        collaboration_mode: set_text_if_given(update.collaboration_mode),
        multi_agent: None,
        personality: None,
        service_tier: None,
        developer_instructions: None,
        model: set_text_if_given(update.model),
        effort: set_text_if_given(update.effort),
        codex_config_mode: None,
        codex_config_profile: None,
        codex_model_provider: None,
    }
}

/// A change from the control deck never touches what a Codex session fixes when it
/// starts, so no session refuses it.
pub proof fn control_deck_changes_are_never_refused(
    ctx: SessionConfigContext,
    update: ControlDeckConfigUpdate,
)
    ensures
        !changes_fixed_codex_selection(ctx, session_update_of_deck(update)),
{
}

} // verus!
