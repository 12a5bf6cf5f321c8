//! The session columns a settings or attention change writes: only what the change
//! names, in a fixed order, with modes and sources under their stored names.
use vstd::prelude::*;

use crate::codex_config::{inferred_mode, CodexConfigMode, CodexConfigSource};
use crate::conversation::SessionControlMode;
use crate::pending_hooks::Provider;
use crate::session_config::SessionConfigChanges;
use crate::text::{clone_opt_string, copy_str, str_eq};

verus! {

/// A value written to a session column: text or a switch, either possibly null.
#[derive(Debug, Clone, PartialEq, Eq)]
pub enum ColumnValue {
    Text(Option<String>),
    Flag(Option<bool>),
}

/// One column a write sets.
#[derive(Debug, Clone)]
pub struct ColumnWrite {
    pub column: &'static str,
    pub value: ColumnValue,
}

/// A column value as the specifications see it: whether it is a switch, its text, and
/// its switch value.
pub type ValueView = (bool, Option<Seq<char>>, Option<bool>);

/// A text value, possibly null.
pub open spec fn text_value(t: Option<Seq<char>>) -> ValueView {
    (false, t, None)
}

/// A switch value, possibly null.
pub open spec fn flag_value(f: Option<bool>) -> ValueView {
    (true, None, f)
}

/// The view of an optional string.
pub open spec fn opt_text(t: Option<String>) -> Option<Seq<char>> {
    match t {
        Some(v) => Some(v@),
        None => None,
    }
}

/// The view of a column value.
pub open spec fn value_view(v: ColumnValue) -> ValueView {
    match v {
        ColumnValue::Text(t) => text_value(opt_text(t)),
        ColumnValue::Flag(f) => flag_value(f),
    }
}

/// The writes of a list, as column names and values.
pub open spec fn writes_view(ws: Seq<ColumnWrite>) -> Seq<(Seq<char>, ValueView)> {
    ws.map_values(|w: ColumnWrite| (w.column@, value_view(w.value)))
}

/// The write of a text change: the given value, null included, when there is a change.
pub open spec fn text_change(column: Seq<char>, change: Option<Option<String>>) -> Seq<
    (Seq<char>, ValueView),
> {
    match change {
        Some(v) => seq![(column, text_value(opt_text(v)))],
        None => Seq::empty(),
    }
}

/// The write of a switch change.
pub open spec fn flag_change(column: Seq<char>, change: Option<Option<bool>>) -> Seq<
    (Seq<char>, ValueView),
> {
    match change {
        Some(v) => seq![(column, flag_value(v))],
        None => Seq::empty(),
    }
}

/// The write of a text that is only ever set, never cleared.
pub open spec fn text_set(column: Seq<char>, value: Option<Seq<char>>) -> Seq<(Seq<char>, ValueView)> {
    match value {
        Some(v) => seq![(column, text_value(Some(v)))],
        None => Seq::empty(),
    }
}

/// The stored name of a configuration source.
pub open spec fn source_name(s: CodexConfigSource) -> Seq<char> {
    match s {
        CodexConfigSource::Orbitdock => "orbitdock"@,
        CodexConfigSource::User => "user"@,
    }
}

/// The stored name of a configuration mode.
pub open spec fn mode_name(m: CodexConfigMode) -> Seq<char> {
    match m {
        CodexConfigMode::Inherit => "inherit"@,
        CodexConfigMode::Profile => "profile"@,
        CodexConfigMode::Custom => "custom"@,
    }
}

/// The stored name of a configuration source.
pub fn config_source_str(s: CodexConfigSource) -> (r: &'static str)
    ensures
        r@ == source_name(s),
{
    match s {
        CodexConfigSource::Orbitdock => "orbitdock",
        CodexConfigSource::User => "user",
    }
}

/// The stored name of a configuration mode.
pub fn config_mode_str(m: CodexConfigMode) -> (r: &'static str)
    ensures
        r@ == mode_name(m),
{
    match m {
        CodexConfigMode::Inherit => "inherit",
        CodexConfigMode::Profile => "profile",
        CodexConfigMode::Custom => "custom",
    }
}

/// The stored name of the mode a change sets; a clear sets none.
pub open spec fn mode_set(change: Option<Option<CodexConfigMode>>) -> Option<Seq<char>> {
    match change {
        Some(Some(m)) => Some(mode_name(m)),
        _ => None,
    }
}

/// The text a change sets; a clear sets none.
pub open spec fn text_set_by(change: Option<Option<String>>) -> Option<Seq<char>> {
    match change {
        Some(Some(v)) => Some(v@),
        _ => None,
    }
}

/// The columns a settings change writes, in order: each setting it names, with null
/// where it clears one; the Codex mode, profile and provider only where it sets them
/// (a clear of those is not written); the source where it is given; and the overrides
/// where there are any to store.
pub open spec fn config_writes(c: SessionConfigChanges, overrides_json: Option<String>) -> Seq<
    (Seq<char>, ValueView),
> {
    text_change("approval_policy"@, c.approval_policy)
        + text_change("sandbox_mode"@, c.sandbox_mode)
        + text_change("permission_mode"@, c.permission_mode)
        + text_change("collaboration_mode"@, c.collaboration_mode)
        + flag_change("multi_agent"@, c.multi_agent)
        + text_change("personality"@, c.personality)
        + text_change("service_tier"@, c.service_tier)
        + text_change("developer_instructions"@, c.developer_instructions)
        + text_change("model"@, c.model)
        + text_change("effort"@, c.effort)
        + text_set("codex_config_mode"@, mode_set(c.codex_config_mode))
        + text_set("codex_config_profile"@, text_set_by(c.codex_config_profile))
        + text_set("codex_model_provider"@, text_set_by(c.codex_model_provider))
        + text_set(
        "codex_config_source"@,
        match c.codex_config_source {
            Some(s) => Some(source_name(s)),
            None => None,
        },
    ) + text_set("codex_config_overrides_json"@, opt_text(overrides_json))
}

fn push_text_change(
    writes: &mut Vec<ColumnWrite>,
    column: &'static str,
    change: &Option<Option<String>>,
)
    ensures
        writes_view(final(writes)@) == writes_view(old(writes)@) + text_change(column@, *change),
{
    let ghost before = writes@;
    match change {
        Some(v) => {
            writes.push(ColumnWrite { column, value: ColumnValue::Text(clone_opt_string(v)) });
            assert(writes_view(writes@) =~= writes_view(before) + text_change(column@, *change));
        },
        None => {
            assert(writes_view(writes@) =~= writes_view(before) + text_change(column@, *change));
        },
    }
}

fn push_text_set(writes: &mut Vec<ColumnWrite>, column: &'static str, value: Option<String>)
    ensures
        writes_view(final(writes)@) == writes_view(old(writes)@) + text_set(column@, opt_text(value)),
{
    let ghost before = writes@;
    match value {
        Some(v) => {
            writes.push(ColumnWrite { column, value: ColumnValue::Text(Some(v)) });
            assert(writes_view(writes@) =~= writes_view(before) + text_set(column@, opt_text(value)));
        },
        None => {
            assert(writes_view(writes@) =~= writes_view(before) + text_set(column@, opt_text(value)));
        },
    }
}

fn set_text(change: &Option<Option<String>>) -> (r: Option<String>)
    ensures
        opt_text(r) == text_set_by(*change),
{
    match change {
        Some(Some(v)) => Some(v.clone()),
        _ => None,
    }
}

/// The columns a settings change writes, in the order `config_writes` gives. The
/// overrides come already serialized, `None` where there are none to store. The session's
/// last activity time is written along with them when there is any.
pub fn session_config_writes(changes: &SessionConfigChanges, overrides_json: Option<String>) -> (r:
    Vec<ColumnWrite>)
    ensures
        writes_view(r@) == config_writes(*changes, overrides_json),
{
    let mut w: Vec<ColumnWrite> = Vec::new();
    push_text_change(&mut w, "approval_policy", &changes.approval_policy);
    push_text_change(&mut w, "sandbox_mode", &changes.sandbox_mode);
    push_text_change(&mut w, "permission_mode", &changes.permission_mode);
    push_text_change(&mut w, "collaboration_mode", &changes.collaboration_mode);
    let ghost before = w@;
    match changes.multi_agent {
        Some(v) => {
            w.push(ColumnWrite { column: "multi_agent", value: ColumnValue::Flag(v) });
        },
        None => {},
    }
    assert(writes_view(w@) =~= writes_view(before) + flag_change("multi_agent"@, changes.multi_agent));
    push_text_change(&mut w, "personality", &changes.personality);
    push_text_change(&mut w, "service_tier", &changes.service_tier);
    push_text_change(&mut w, "developer_instructions", &changes.developer_instructions);
    push_text_change(&mut w, "model", &changes.model);
    push_text_change(&mut w, "effort", &changes.effort);
    let mode = match changes.codex_config_mode {
        Some(Some(m)) => Some(copy_str(config_mode_str(m))),
        _ => None,
    };
    push_text_set(&mut w, "codex_config_mode", mode);
    push_text_set(&mut w, "codex_config_profile", set_text(&changes.codex_config_profile));
    push_text_set(&mut w, "codex_model_provider", set_text(&changes.codex_model_provider));
    let source = match changes.codex_config_source {
        Some(s) => Some(copy_str(config_source_str(s))),
        None => None,
    };
    push_text_set(&mut w, "codex_config_source", source);
    push_text_set(&mut w, "codex_config_overrides_json", overrides_json);
    w
}

/// What a session is waiting on, as a change: for each field, nothing to change, or the
/// new value (which may be null).
#[derive(Debug, Clone)]
pub struct SessionAttentionChange {
    pub attention_reason: Option<Option<String>>,
    pub last_tool: Option<Option<String>>,
    pub last_tool_at: Option<Option<String>>,
    pub pending_tool_name: Option<Option<String>>,
    pub pending_tool_input: Option<Option<String>>,
    pub pending_question: Option<Option<String>>,
}

/// The columns an attention change writes, in order: each field it names.
pub open spec fn attention_writes(c: SessionAttentionChange) -> Seq<(Seq<char>, ValueView)> {
    text_change("attention_reason"@, c.attention_reason)
        + text_change("last_tool"@, c.last_tool)
        + text_change("last_tool_at"@, c.last_tool_at)
        + text_change("pending_tool_name"@, c.pending_tool_name)
        + text_change("pending_tool_input"@, c.pending_tool_input)
        + text_change("pending_question"@, c.pending_question)
}

/// The columns an attention change writes, in the order `attention_writes` gives. The
/// session's last activity time is written along with them when there is any.
pub fn session_attention_writes(change: &SessionAttentionChange) -> (r: Vec<ColumnWrite>)
    ensures
        writes_view(r@) == attention_writes(*change),
{
    let mut w: Vec<ColumnWrite> = Vec::new();
    push_text_change(&mut w, "attention_reason", &change.attention_reason);
    push_text_change(&mut w, "last_tool", &change.last_tool);
    push_text_change(&mut w, "last_tool_at", &change.last_tool_at);
    push_text_change(&mut w, "pending_tool_name", &change.pending_tool_name);
    push_text_change(&mut w, "pending_tool_input", &change.pending_tool_input);
    push_text_change(&mut w, "pending_question", &change.pending_question);
    w
}

/// A stored configuration mode reads back as the mode that was stored, whatever
/// profile and provider the row holds.
pub proof fn stored_mode_reads_back(
    m: CodexConfigMode,
    profile: Option<Seq<char>>,
    provider: Option<Seq<char>>,
)
    ensures
        inferred_mode(Some(mode_name(m)), profile, provider) == Some(m),
{
    reveal_strlit("inherit");
    reveal_strlit("profile");
    reveal_strlit("custom");
    assert("inherit"@[0] != "profile"@[0]);
    assert("inherit"@[0] != "custom"@[0]);
    assert("profile"@[0] != "custom"@[0]);
}

/// The configuration source a stored name stands for; an unknown name stands for none.
pub open spec fn parsed_source(raw: Option<Seq<char>>) -> Option<CodexConfigSource> {
    if raw == Some("orbitdock"@) {
        Some(CodexConfigSource::Orbitdock)
    } else if raw == Some("user"@) {
        Some(CodexConfigSource::User)
    } else {
        None
    }
}

/// The configuration source of a stored session row.
pub fn parse_config_source(raw: Option<&str>) -> (r: Option<CodexConfigSource>)
    ensures
        r == parsed_source(opt_str(raw)),
{
    match raw {
        Some(v) => if str_eq(v, "orbitdock") {
            Some(CodexConfigSource::Orbitdock)
        } else if str_eq(v, "user") {
            Some(CodexConfigSource::User)
        } else {
            None
        },
        None => None,
    }
}

/// A stored configuration source reads back as the source that was stored.
pub proof fn stored_source_reads_back(s: CodexConfigSource)
    ensures
        parsed_source(Some(source_name(s))) == Some(s),
{
    reveal_strlit("orbitdock");
    reveal_strlit("user");
    assert("orbitdock"@.len() != "user"@.len());
}

/// What a status update from a hook does besides writing the fields it names.
#[derive(Debug, Clone, Copy, PartialEq, Eq, Structural)]
pub struct HookUpdateEffects {
    /// The pending tool, question and approval are cleared, and approvals still open
    /// are recorded as aborted.
    pub clears_pending: bool,
    /// An attention reason of awaiting permission or a question becomes awaiting a
    /// reply.
    pub downgrades_attention: bool,
    /// The session's lifecycle ends; otherwise it is open unless already set.
    pub ends_lifecycle: bool,
}

/// Work statuses after which nothing is pending any more.
pub open spec fn settles_pending(work_status: Option<Seq<char>>) -> bool {
    match work_status {
        Some(w) => w == "working"@ || w == "waiting"@ || w == "reply"@ || w == "ended"@,
        None => false,
    }
}

/// What a hook's status update does: a settled work status clears what was pending
/// and, unless the update gives its own attention reason, turns waiting on the user
/// into waiting for a reply; the work status `ended` ends the lifecycle.
pub fn hook_update_effects(work_status: Option<&str>, gives_attention_reason: bool) -> (r:
    HookUpdateEffects)
    ensures
        r.clears_pending == settles_pending(opt_str(work_status)),
        r.downgrades_attention == (settles_pending(opt_str(work_status))
            && !gives_attention_reason),
        r.ends_lifecycle == (opt_str(work_status) == Some("ended"@)),
{
    let (settled, ended) = match work_status {
        Some(w) => {
            let ended = str_eq(w, "ended");
            (str_eq(w, "working") || str_eq(w, "waiting") || str_eq(w, "reply") || ended, ended)
        },
        None => (false, false),
    };
    HookUpdateEffects {
        clears_pending: settled,
        downgrades_attention: settled && !gives_attention_reason,
        ends_lifecycle: ended,
    }
}

/// The view of an optional string slice.
pub open spec fn opt_str(v: Option<&str>) -> Option<Seq<char>> {
    match v {
        Some(t) => Some(t@),
        None => None,
    }
}

/// The control mode that goes with a session's integration modes: direct when either
/// provider's integration is direct, passive otherwise.
pub open spec fn control_mode_of(codex_mode: Option<Seq<char>>, claude_mode: Option<Seq<char>>)
    -> SessionControlMode {
    if codex_mode == Some("direct"@) || claude_mode == Some("direct"@) {
        SessionControlMode::Direct
    } else {
        SessionControlMode::Passive
    }
}

/// The stored name of a control mode.
pub open spec fn control_mode_name(m: SessionControlMode) -> Seq<char> {
    match m {
        SessionControlMode::Direct => "direct"@,
        SessionControlMode::Passive => "passive"@,
    }
}

/// The columns an integration-mode change writes, in order: each mode it gives, then,
/// when it gives any, the control mode that goes with them. The lifecycle is opened
/// along with them unless already set.
pub open spec fn integration_writes(codex_mode: Option<String>, claude_mode: Option<String>) -> Seq<
    (Seq<char>, ValueView),
> {
    let named = text_set("codex_integration_mode"@, opt_text(codex_mode)) + text_set(
        "claude_integration_mode"@,
        opt_text(claude_mode),
    );
    if named.len() == 0 {
        named
    } else {
        named.push(
            (
                "control_mode"@,
                text_value(
                    Some(control_mode_name(control_mode_of(opt_text(codex_mode), opt_text(claude_mode)))),
                ),
            ),
        )
    }
}

/// The columns an integration-mode change writes, in the order `integration_writes`
/// gives.
pub fn integration_mode_writes(codex_mode: Option<String>, claude_mode: Option<String>) -> (r: Vec<
    ColumnWrite,
>)
    ensures
        writes_view(r@) == integration_writes(codex_mode, claude_mode),
{
    let direct = match &codex_mode {
        Some(m) => str_eq(m.as_str(), "direct"),
        None => false,
    } || match &claude_mode {
        Some(m) => str_eq(m.as_str(), "direct"),
        None => false,
    };
    let given = codex_mode.is_some() || claude_mode.is_some();
    let ghost codex_view = opt_text(codex_mode);
    let ghost claude_view = opt_text(claude_mode);
    let mut w: Vec<ColumnWrite> = Vec::new();
    push_text_set(&mut w, "codex_integration_mode", codex_mode);
    push_text_set(&mut w, "claude_integration_mode", claude_mode);
    if given {
        let ghost before = w@;
        let name = if direct {
            "direct"
        } else {
            "passive"
        };
        w.push(ColumnWrite { column: "control_mode", value: ColumnValue::Text(Some(copy_str(name))) });
        assert(writes_view(w@) =~= writes_view(before).push(
            (
                "control_mode"@,
                text_value(Some(control_mode_name(control_mode_of(codex_view, claude_view)))),
            ),
        ));
    }
    w
}

/// What the check for a direct owner reads of a stored session: its provider, the
/// provider session id it drives, its control mode and its integration mode with that
/// provider, each as stored (possibly null).
#[derive(Debug, Clone)]
pub struct OwnerCandidate {
    pub provider: Option<Provider>,
    pub claude_sdk_session_id: Option<String>,
    pub control_mode: Option<String>,
    pub claude_integration_mode: Option<String>,
}

/// Whether a stored session is driven directly: its control mode says so, or, where it
/// has none, its provider is the SDK provider and its integration mode is direct.
pub open spec fn is_directly_controlled(c: OwnerCandidate) -> bool {
    match c.control_mode {
        Some(m) => m@ == "direct"@,
        None => c.provider == Some(Provider::Claude) && (c.claude_integration_mode matches Some(i)
            && i@ == "direct"@),
    }
}

/// Whether a stored session of the SDK provider is the directly driven session behind
/// the provider session `session_id`.
pub open spec fn owns_claude_shadow(c: OwnerCandidate, session_id: Seq<char>) -> bool {
    &&& c.provider == Some(Provider::Claude)
    &&& c.claude_sdk_session_id matches Some(s) && s@ == session_id
    &&& is_directly_controlled(c)
}

fn text_is(v: &Option<String>, expected: &str) -> (r: bool)
    ensures
        r == (v matches Some(t) && t@ == expected@),
{
    match v {
        Some(t) => str_eq(t.as_str(), expected),
        None => false,
    }
}

/// Whether the provider session `session_id` is the shadow of a session OrbitDock drives
/// directly: some stored session of the SDK provider names it as the session it drives
/// and is directly controlled. Such a shadow is kept out of the passive lifecycle.
pub fn claude_shadow_is_owned_by_direct_session(sessions: &Vec<OwnerCandidate>, session_id: &str) -> (r:
    bool)
    ensures
        r == exists|k: int|
            0 <= k < sessions@.len() && owns_claude_shadow(#[trigger] sessions@[k], session_id@),
{
    let mut i: usize = 0;
    while i < sessions.len()
        invariant
            i <= sessions@.len(),
            forall|k: int| 0 <= k < i ==> !owns_claude_shadow(#[trigger] sessions@[k], session_id@),
        decreases sessions.len() - i,
    {
        let c = &sessions[i];
        let sdk_provider = match c.provider {
            Some(Provider::Claude) => true,
            _ => false,
        };
        let direct = match &c.control_mode {
            Some(m) => str_eq(m.as_str(), "direct"),
            None => sdk_provider && text_is(&c.claude_integration_mode, "direct"),
        };
        if sdk_provider && text_is(&c.claude_sdk_session_id, session_id) && direct {
            return true;
        }
        i = i + 1;
    }
    false
}

} // verus!
