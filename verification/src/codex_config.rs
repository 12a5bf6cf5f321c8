//! Codex configuration selection: which config mode a session runs in, what each mode
//! keeps of a selection, what the runtime overrides, and the catalog of providers.
use vstd::prelude::*;

use crate::session_config::CodexApprovalPolicy;
use crate::text::{
    chars_eq, chars_starts_with, clone_opt_string, copy_str, has_prefix, lemma_split_on_nonempty,
    lemma_text_less_irreflexive, lists_index, split_chars, split_on, stable_order_by_text, str_eq,
    string_from_chars, string_from_range, string_views, strip_cr, text_less, text_lines, text_sorted,
    to_chars, trim, trim_str,
};

verus! {

/// Where a session's Codex configuration comes from.
#[derive(Debug, Clone, Copy, PartialEq, Eq, Structural)]
pub enum CodexConfigSource {
    User,
    Orbitdock,
}

/// How a session picks its Codex configuration: inherit the user's, use a named
/// profile, or set model and provider directly.
#[derive(Debug, Clone, Copy, PartialEq, Eq, Structural)]
pub enum CodexConfigMode {
    Inherit,
    Profile,
    Custom,
}

/// Per-session overrides of Codex settings.
#[derive(Debug, Clone)]
pub struct CodexSessionOverrides {
    pub model: Option<String>,
    pub model_provider: Option<String>,
    pub approval_policy: Option<String>,
    pub approval_policy_details: Option<CodexApprovalPolicy>,
    pub sandbox_mode: Option<String>,
    /// Who answers approval requests, by the name the connector is given.
    pub approvals_reviewer: Option<String>,
    pub collaboration_mode: Option<String>,
    pub multi_agent: Option<bool>,
    pub personality: Option<String>,
    pub service_tier: Option<String>,
    pub developer_instructions: Option<String>,
    pub effort: Option<String>,
}

/// Overrides that override nothing.
pub open spec fn no_overrides(o: CodexSessionOverrides) -> bool {
    &&& o.model is None
    &&& o.model_provider is None
    &&& o.approval_policy is None
    &&& o.approval_policy_details is None
    &&& o.sandbox_mode is None
    &&& o.approvals_reviewer is None
    &&& o.collaboration_mode is None
    &&& o.multi_agent is None
    &&& o.personality is None
    &&& o.service_tier is None
    &&& o.developer_instructions is None
    &&& o.effort is None
}

impl Default for CodexSessionOverrides {
    fn default() -> (r: Self)
        ensures
            no_overrides(r),
    {
        CodexSessionOverrides {
            model: None,
            model_provider: None,
            approval_policy: None,
            approval_policy_details: None,
            sandbox_mode: None,
            approvals_reviewer: None,
            collaboration_mode: None,
            multi_agent: None,
            personality: None,
            service_tier: None,
            developer_instructions: None,
            effort: None,
        }
    }
}

impl CodexSessionOverrides {
    /// Whether nothing is overridden; such overrides are not stored.
    pub fn is_empty(&self) -> (r: bool)
        ensures
            r == no_overrides(*self),
    {
        self.model.is_none() && self.model_provider.is_none() && self.approval_policy.is_none()
            && self.approval_policy_details.is_none() && self.sandbox_mode.is_none()
            && self.approvals_reviewer.is_none() && self.collaboration_mode.is_none()
            && self.multi_agent.is_none() && self.personality.is_none()
            && self.service_tier.is_none() && self.developer_instructions.is_none()
            && self.effort.is_none()
    }
}

pub(crate) fn clone_overrides(o: &CodexSessionOverrides) -> (r: CodexSessionOverrides)
    ensures
        r == *o,
{
    CodexSessionOverrides {
        model: clone_opt_string(&o.model),
        model_provider: clone_opt_string(&o.model_provider),
        approval_policy: clone_opt_string(&o.approval_policy),
        approval_policy_details: o.approval_policy_details,
        sandbox_mode: clone_opt_string(&o.sandbox_mode),
        approvals_reviewer: clone_opt_string(&o.approvals_reviewer),
        collaboration_mode: clone_opt_string(&o.collaboration_mode),
        multi_agent: o.multi_agent,
        personality: clone_opt_string(&o.personality),
        service_tier: clone_opt_string(&o.service_tier),
        developer_instructions: clone_opt_string(&o.developer_instructions),
        effort: clone_opt_string(&o.effort),
    }
}

/// A session's choice of Codex configuration.
#[derive(Debug, Clone)]
pub struct CodexConfigSelection {
    pub config_source: CodexConfigSource,
    pub config_mode: CodexConfigMode,
    pub config_profile: Option<String>,
    pub model_provider: Option<String>,
    pub overrides: CodexSessionOverrides,
}

/// What a mode keeps of a selection. Inherit drops the profile, the provider and the
/// model and provider overrides; Profile keeps the profile and drops the provider and
/// the model and provider overrides; Custom drops only the profile.
pub open spec fn normalized_selection(s: CodexConfigSelection) -> CodexConfigSelection {
    match s.config_mode {
        CodexConfigMode::Inherit => CodexConfigSelection {
            config_profile: None,
            model_provider: None,
            overrides: CodexSessionOverrides { model: None, model_provider: None, ..s.overrides },
            ..s
        },
        CodexConfigMode::Profile => CodexConfigSelection {
            model_provider: None,
            overrides: CodexSessionOverrides { model: None, model_provider: None, ..s.overrides },
            ..s
        },
        CodexConfigMode::Custom => CodexConfigSelection { config_profile: None, ..s },
    }
}

impl CodexConfigSelection {
    /// The selection with what its mode does not use cleared.
    pub fn normalized(self) -> (r: Self)
        ensures
            r == normalized_selection(self),
    {
        let mut s = self;
        match s.config_mode {
            CodexConfigMode::Inherit => {
                s.config_profile = None;
                s.model_provider = None;
                s.overrides.model = None;
                s.overrides.model_provider = None;
            },
            CodexConfigMode::Profile => {
                s.model_provider = None;
                s.overrides.model = None;
                s.overrides.model_provider = None;
            },
            CodexConfigMode::Custom => {
                s.config_profile = None;
            },
        }
        s
    }
}

/// Normalizing twice changes nothing more than normalizing once.
pub proof fn normalized_is_idempotent(s: CodexConfigSelection)
    ensures
        normalized_selection(normalized_selection(s)) == normalized_selection(s),
{
}

/// Normalizing never changes the source or the mode, and keeps every override other
/// than the model and its provider.
pub proof fn normalized_keeps_mode_and_other_overrides(s: CodexConfigSelection)
    ensures
        normalized_selection(s).config_source == s.config_source,
        normalized_selection(s).config_mode == s.config_mode,
        normalized_selection(s).overrides.approval_policy == s.overrides.approval_policy,
        normalized_selection(s).overrides.sandbox_mode == s.overrides.sandbox_mode,
        normalized_selection(s).overrides.collaboration_mode == s.overrides.collaboration_mode,
        normalized_selection(s).overrides.multi_agent == s.overrides.multi_agent,
        normalized_selection(s).overrides.personality == s.overrides.personality,
        normalized_selection(s).overrides.service_tier == s.overrides.service_tier,
        normalized_selection(s).overrides.developer_instructions
            == s.overrides.developer_instructions,
        normalized_selection(s).overrides.effort == s.overrides.effort,
{
}

/// Text that is present and not blank.
pub open spec fn is_filled(v: Option<String>) -> bool {
    v matches Some(t) && trim(t@).len() > 0
}

fn filled(v: &Option<String>) -> (r: bool)
    ensures
        r == is_filled(*v),
{
    match v {
        Some(t) => {
            let trimmed = trim_str(t.as_str());
            trimmed.as_str().unicode_len() > 0
        },
        None => false,
    }
}

fn filled_str(v: Option<&str>) -> (r: bool)
    ensures
        r == (v matches Some(t) && trim(t@).len() > 0),
{
    match v {
        Some(t) => {
            let trimmed = trim_str(t);
            trimmed.as_str().unicode_len() > 0
        },
        None => false,
    }
}

/// The mode of a stored session: the stored mode name when there is one (`None` for
/// an unknown name); otherwise Profile when a profile is set, Custom when a provider
/// is set, and `None` when neither is.
pub open spec fn inferred_mode(
    raw_mode: Option<Seq<char>>,
    profile: Option<Seq<char>>,
    provider: Option<Seq<char>>,
) -> Option<CodexConfigMode> {
    match raw_mode {
        Some(m) => if m == "inherit"@ {
            Some(CodexConfigMode::Inherit)
        } else if m == "profile"@ {
            Some(CodexConfigMode::Profile)
        } else if m == "custom"@ {
            Some(CodexConfigMode::Custom)
        } else {
            None
        },
        None => if profile matches Some(p) && trim(p).len() > 0 {
            Some(CodexConfigMode::Profile)
        } else if provider matches Some(p) && trim(p).len() > 0 {
            Some(CodexConfigMode::Custom)
        } else {
            None
        },
    }
}

/// Spec view of an optional string slice.
pub open spec fn opt_view(v: Option<&str>) -> Option<Seq<char>> {
    match v {
        Some(t) => Some(t@),
        None => None,
    }
}

/// The config mode of a stored session row; rows written before the mode was stored
/// get it from their profile or provider.
pub fn infer_codex_config_mode(
    raw_mode: Option<&str>,
    config_profile: Option<&str>,
    model_provider: Option<&str>,
) -> (r: Option<CodexConfigMode>)
    ensures
        r == inferred_mode(opt_view(raw_mode), opt_view(config_profile), opt_view(model_provider)),
{
    match raw_mode {
        Some(m) => {
            if str_eq(m, "inherit") {
                Some(CodexConfigMode::Inherit)
            } else if str_eq(m, "profile") {
                Some(CodexConfigMode::Profile)
            } else if str_eq(m, "custom") {
                Some(CodexConfigMode::Custom)
            } else {
                None
            }
        },
        None => {
            if filled_str(config_profile) {
                Some(CodexConfigMode::Profile)
            } else if filled_str(model_provider) {
                Some(CodexConfigMode::Custom)
            } else {
                None
            }
        },
    }
}

/// What a Codex session is resumed with.
#[derive(Debug, Clone)]
pub struct CodexResumeRequest {
    pub session_id: String,
    pub project_path: String,
    pub model: Option<String>,
    pub codex_thread_id: Option<String>,
    pub approval_policy: Option<String>,
    pub sandbox_mode: Option<String>,
    pub collaboration_mode: Option<String>,
    pub multi_agent: Option<bool>,
    pub personality: Option<String>,
    pub service_tier: Option<String>,
    pub developer_instructions: Option<String>,
    pub codex_config_mode: Option<CodexConfigMode>,
    pub codex_config_profile: Option<String>,
    pub codex_model_provider: Option<String>,
    pub codex_config_source: Option<CodexConfigSource>,
    pub codex_config_overrides: Option<CodexSessionOverrides>,
}

/// The mode a resumed session runs in: the stored one, or else Profile when a profile
/// is set, Custom when a provider is set, and Inherit otherwise.
pub open spec fn resume_mode(r: CodexResumeRequest) -> CodexConfigMode {
    match r.codex_config_mode {
        Some(m) => m,
        None => if is_filled(r.codex_config_profile) {
            CodexConfigMode::Profile
        } else if is_filled(r.codex_model_provider) {
            CodexConfigMode::Custom
        } else {
            CodexConfigMode::Inherit
        },
    }
}

/// Overrides a resumed session starts from when none were stored: the session's own
/// settings.
pub open spec fn resume_overrides(r: CodexResumeRequest) -> CodexSessionOverrides {
    match r.codex_config_overrides {
        Some(o) => o,
        None => CodexSessionOverrides {
            model: r.model,
            model_provider: r.codex_model_provider,
            approval_policy: r.approval_policy,
            approval_policy_details: None,
            sandbox_mode: r.sandbox_mode,
            approvals_reviewer: None,
            collaboration_mode: r.collaboration_mode,
            multi_agent: r.multi_agent,
            personality: r.personality,
            service_tier: r.service_tier,
            developer_instructions: r.developer_instructions,
            effort: None,
        },
    }
}

/// The selection a resumed session runs with, before normalizing.
pub open spec fn resume_selection(r: CodexResumeRequest) -> CodexConfigSelection {
    CodexConfigSelection {
        config_source: match r.codex_config_source {
            Some(s) => s,
            None => CodexConfigSource::User,
        },
        config_mode: resume_mode(r),
        config_profile: r.codex_config_profile,
        model_provider: r.codex_model_provider,
        overrides: resume_overrides(r),
    }
}

/// The normalized configuration selection a Codex session resumes with.
pub fn codex_resume_selection(request: &CodexResumeRequest) -> (r: CodexConfigSelection)
    ensures
        r == normalized_selection(resume_selection(*request)),
{
    let mode = match request.codex_config_mode {
        Some(m) => m,
        None => {
            if filled(&request.codex_config_profile) {
                CodexConfigMode::Profile
            } else if filled(&request.codex_model_provider) {
                CodexConfigMode::Custom
            } else {
                CodexConfigMode::Inherit
            }
        },
    };
    let overrides = match &request.codex_config_overrides {
        Some(o) => clone_overrides(o),
        None => CodexSessionOverrides {
            model: clone_opt_string(&request.model),
            model_provider: clone_opt_string(&request.codex_model_provider),
            approval_policy: clone_opt_string(&request.approval_policy),
            approval_policy_details: None,
            sandbox_mode: clone_opt_string(&request.sandbox_mode),
            approvals_reviewer: None,
            collaboration_mode: clone_opt_string(&request.collaboration_mode),
            multi_agent: request.multi_agent,
            personality: clone_opt_string(&request.personality),
            service_tier: clone_opt_string(&request.service_tier),
            developer_instructions: clone_opt_string(&request.developer_instructions),
            effort: None,
        },
    };
    let selection = CodexConfigSelection {
        config_source: match request.codex_config_source {
            Some(s) => s,
            None => CodexConfigSource::User,
        },
        config_mode: mode,
        config_profile: clone_opt_string(&request.codex_config_profile),
        model_provider: clone_opt_string(&request.codex_model_provider),
        overrides,
    };
    selection.normalized()
}

/// The configuration source stored as the default: `orbitdock` selects OrbitDock's
/// own, anything else the user's.
pub fn codex_default_config_source(stored: Option<&str>) -> (r: CodexConfigSource)
    ensures
        r == (if opt_view(stored) == Some("orbitdock"@) {
            CodexConfigSource::Orbitdock
        } else {
            CodexConfigSource::User
        }),
{
    match stored {
        Some(v) => if str_eq(v, "orbitdock") {
            CodexConfigSource::Orbitdock
        } else {
            CodexConfigSource::User
        },
        None => CodexConfigSource::User,
    }
}

/// A working directory given by a client, trimmed; `None` when it is blank.
pub fn normalized_optional_cwd(cwd: &str) -> (r: Option<String>)
    ensures
        match r {
            Some(v) => trim(cwd@).len() > 0 && v@ == trim(cwd@),
            None => trim(cwd@).len() == 0,
        },
{
    let trimmed = trim_str(cwd);
    if trimmed.as_str().unicode_len() == 0 {
        None
    } else {
        Some(trimmed)
    }
}

/// Which config document a client edits.
#[derive(Debug, Clone, Copy, PartialEq, Eq, Structural)]
pub enum CodexConfigDocumentScope {
    User,
    Project,
}

impl CodexConfigDocumentScope {
    /// The scope's name, as `Display` renders it.
    pub fn as_str(&self) -> (r: String)
        ensures
            r@ == (match *self {
                CodexConfigDocumentScope::User => "user"@,
                CodexConfigDocumentScope::Project => "project"@,
            }),
    {
        match self {
            CodexConfigDocumentScope::User => copy_str("user"),
            CodexConfigDocumentScope::Project => copy_str("project"),
        }
    }
}

/// How a config write merges with what is there.
#[derive(Debug, Clone, Copy, PartialEq, Eq, Structural)]
pub enum CodexConfigMergeStrategy {
    Replace,
    Upsert,
}

impl CodexConfigMergeStrategy {
    /// The strategy a write uses: the one requested, or Replace.
    pub fn or_default(requested: Option<CodexConfigMergeStrategy>) -> (r: CodexConfigMergeStrategy)
        ensures
            r == match requested {
                Some(s) => s,
                None => CodexConfigMergeStrategy::Replace,
            },
    {
        match requested {
            Some(s) => s,
            None => CodexConfigMergeStrategy::Replace,
        }
    }
}

/// Spec view of an optional string.
pub open spec fn opt_string_view(v: Option<String>) -> Option<Seq<char>> {
    match v {
        Some(t) => Some(t@),
        None => None,
    }
}

/// Where an effective setting came from, as the config inspector shows it.
#[derive(Debug, Clone)]
pub struct CodexInspectorOrigin {
    pub source_kind: String,
    pub path: Option<String>,
    pub version: String,
}

/// The origin OrbitDock reports for a setting it overrides at run time.
pub open spec fn is_runtime_origin(o: CodexInspectorOrigin, key: Seq<char>) -> bool {
    &&& o.source_kind@ == "orbitdock_runtime"@
    &&& o.path matches Some(p) && p@ == key
    &&& o.version@ == "runtime"@
}

/// `key` alone when `cond` holds, nothing otherwise.
pub open spec fn key_if(cond: bool, key: Seq<char>) -> Seq<Seq<char>> {
    if cond {
        seq![key]
    } else {
        Seq::empty()
    }
}

/// The settings whose origin is the runtime, in the order they are reported.
pub open spec fn runtime_origin_keys(s: CodexConfigSelection) -> Seq<Seq<char>> {
    key_if(s.config_profile is Some, "profile"@) + key_if(
        s.model_provider is Some || s.overrides.model_provider is Some,
        "model_provider"@,
    ) + key_if(s.overrides.collaboration_mode is Some, "collaboration_mode"@) + key_if(
        s.overrides.model is Some,
        "model"@,
    ) + key_if(s.overrides.approval_policy is Some, "approval_policy"@) + key_if(
        s.overrides.sandbox_mode is Some,
        "sandbox_mode"@,
    ) + key_if(s.overrides.multi_agent is Some, "features.multi_agent"@) + key_if(
        s.overrides.personality is Some,
        "personality"@,
    ) + key_if(s.overrides.service_tier is Some, "service_tier"@) + key_if(
        s.overrides.developer_instructions is Some,
        "developer_instructions"@,
    ) + key_if(s.overrides.effort is Some, "model_reasoning_effort"@)
}

/// Keys of a list of origin entries.
pub open spec fn origin_keys(v: Seq<(String, CodexInspectorOrigin)>) -> Seq<Seq<char>> {
    v.map_values(|e: (String, CodexInspectorOrigin)| e.0@)
}

/// Every entry's origin is the runtime origin for its key.
pub open spec fn all_runtime_origins(v: Seq<(String, CodexInspectorOrigin)>) -> bool {
    forall|k: int| 0 <= k < v.len() ==> is_runtime_origin(#[trigger] v[k].1, v[k].0@)
}

fn push_origin_if(v: &mut Vec<(String, CodexInspectorOrigin)>, cond: bool, key: &str)
    requires
        all_runtime_origins(old(v)@),
    ensures
        origin_keys(final(v)@) == origin_keys(old(v)@) + key_if(cond, key@),
        all_runtime_origins(final(v)@),
{
    if cond {
        let origin = CodexInspectorOrigin {
            source_kind: copy_str("orbitdock_runtime"),
            path: Some(copy_str(key)),
            version: copy_str("runtime"),
        };
        v.push((copy_str(key), origin));
    }
    proof {
        assert(origin_keys(v@) =~= origin_keys(old(v)@) + key_if(cond, key@));
    }
}

/// The inspector origins that the runtime overrides for a selection: each setting the
/// selection overrides, reported as coming from `orbitdock_runtime`. They replace the
/// origins read from the config files under the same keys.
pub fn runtime_origin_overrides(selection: &CodexConfigSelection) -> (r: Vec<
    (String, CodexInspectorOrigin),
>)
    ensures
        origin_keys(r@) == runtime_origin_keys(*selection),
        all_runtime_origins(r@),
{
    let s = selection;
    let o = &selection.overrides;
    let mut r: Vec<(String, CodexInspectorOrigin)> = Vec::new();
    proof {
        assert(origin_keys(r@) =~= Seq::<Seq<char>>::empty());
    }
    push_origin_if(&mut r, s.config_profile.is_some(), "profile");
    proof {
        assert(origin_keys(r@) =~= key_if(s.config_profile is Some, "profile"@));
    }
    push_origin_if(
        &mut r,
        s.model_provider.is_some() || o.model_provider.is_some(),
        "model_provider",
    );
    push_origin_if(&mut r, o.collaboration_mode.is_some(), "collaboration_mode");
    push_origin_if(&mut r, o.model.is_some(), "model");
    push_origin_if(&mut r, o.approval_policy.is_some(), "approval_policy");
    push_origin_if(&mut r, o.sandbox_mode.is_some(), "sandbox_mode");
    push_origin_if(&mut r, o.multi_agent.is_some(), "features.multi_agent");
    push_origin_if(&mut r, o.personality.is_some(), "personality");
    push_origin_if(&mut r, o.service_tier.is_some(), "service_tier");
    push_origin_if(&mut r, o.developer_instructions.is_some(), "developer_instructions");
    push_origin_if(&mut r, o.effort.is_some(), "model_reasoning_effort");
    r
}

/// `(key, value)` alone when the value is present, nothing otherwise.
pub open spec fn text_if(key: Seq<char>, v: Option<String>) -> Seq<(Seq<char>, Seq<char>)> {
    match v {
        Some(t) => seq![(key, t@)],
        None => Seq::empty(),
    }
}

/// The text settings of the runtime override layer, in order: the profile, the provider
/// (the selection's own, else the overridden one), then the overridden model, approval
/// policy, sandbox mode, collaboration mode, personality, service tier, developer
/// instructions and reasoning effort.
pub open spec fn runtime_text_entries(s: CodexConfigSelection) -> Seq<(Seq<char>, Seq<char>)> {
    text_if("profile"@, s.config_profile) + text_if(
        "model_provider"@,
        if s.model_provider is Some {
            s.model_provider
        } else {
            s.overrides.model_provider
        },
    ) + text_if("model"@, s.overrides.model) + text_if(
        "approval_policy"@,
        s.overrides.approval_policy,
    ) + text_if("sandbox_mode"@, s.overrides.sandbox_mode) + text_if(
        "collaboration_mode"@,
        s.overrides.collaboration_mode,
    ) + text_if("personality"@, s.overrides.personality) + text_if(
        "service_tier"@,
        s.overrides.service_tier,
    ) + text_if("developer_instructions"@, s.overrides.developer_instructions) + text_if(
        "model_reasoning_effort"@,
        s.overrides.effort,
    )
}

/// Views of a list of string pairs.
pub open spec fn pair_views(v: Seq<(String, String)>) -> Seq<(Seq<char>, Seq<char>)> {
    v.map_values(|e: (String, String)| (e.0@, e.1@))
}

/// The settings OrbitDock overrides at run time, shown as a layer of their own above
/// the config files: text settings by key, and the `features.multi_agent` flag.
#[derive(Debug, Clone)]
pub struct RuntimeOverrides {
    pub text: Vec<(String, String)>,
    pub multi_agent: Option<bool>,
}

impl RuntimeOverrides {
    /// Whether the layer sets nothing, in which case it is not shown.
    pub fn is_empty(&self) -> (r: bool)
        ensures
            r == (self.text@.len() == 0 && self.multi_agent is None),
    {
        self.text.len() == 0 && self.multi_agent.is_none()
    }
}

fn push_text_if(v: &mut Vec<(String, String)>, key: &str, value: &Option<String>)
    ensures
        pair_views(final(v)@) == pair_views(old(v)@) + text_if(key@, *value),
{
    match value {
        Some(t) => {
            v.push((copy_str(key), t.clone()));
        },
        None => {},
    }
    proof {
        assert(pair_views(v@) =~= pair_views(old(v)@) + text_if(key@, *value));
    }
}

/// The runtime override layer of a selection.
pub fn runtime_overrides(selection: &CodexConfigSelection) -> (r: RuntimeOverrides)
    ensures
        pair_views(r.text@) == runtime_text_entries(*selection),
        r.multi_agent == selection.overrides.multi_agent,
{
    let s = selection;
    let o = &selection.overrides;
    let mut text: Vec<(String, String)> = Vec::new();
    proof {
        assert(pair_views(text@) =~= Seq::<(Seq<char>, Seq<char>)>::empty());
    }
    push_text_if(&mut text, "profile", &s.config_profile);
    proof {
        assert(pair_views(text@) =~= text_if("profile"@, s.config_profile));
    }
    let provider = if s.model_provider.is_some() {
        clone_opt_string(&s.model_provider)
    } else {
        clone_opt_string(&o.model_provider)
    };
    push_text_if(&mut text, "model_provider", &provider);
    push_text_if(&mut text, "model", &o.model);
    push_text_if(&mut text, "approval_policy", &o.approval_policy);
    push_text_if(&mut text, "sandbox_mode", &o.sandbox_mode);
    push_text_if(&mut text, "collaboration_mode", &o.collaboration_mode);
    push_text_if(&mut text, "personality", &o.personality);
    push_text_if(&mut text, "service_tier", &o.service_tier);
    push_text_if(&mut text, "developer_instructions", &o.developer_instructions);
    push_text_if(&mut text, "model_reasoning_effort", &o.effort);
    RuntimeOverrides { text, multi_agent: o.multi_agent }
}

/// A profile of the user's Codex config, as the catalog lists it.
#[derive(Debug, Clone)]
pub struct CodexConfigProfileSummary {
    pub name: String,
    pub model: Option<String>,
    pub model_provider: Option<String>,
    pub source: Option<String>,
}

/// A profile as read from the config: its name and what it sets.
#[derive(Debug, Clone)]
pub struct ProfileEntry {
    pub name: String,
    pub model: Option<String>,
    pub model_provider: Option<String>,
}

/// Names of a list of profiles.
pub open spec fn profile_names(v: Seq<ProfileEntry>) -> Seq<Seq<char>> {
    v.map_values(|e: ProfileEntry| e.name@)
}

/// `p` lists the profile `e`, as coming from Codex.
pub open spec fn summarizes_profile(p: CodexConfigProfileSummary, e: ProfileEntry) -> bool {
    &&& p.name@ == e.name@
    &&& p.model == e.model
    &&& p.model_provider == e.model_provider
    &&& p.source matches Some(s) && s@ == "codex"@
}

/// The catalog's profiles: one summary per profile, sorted by name (profiles of the
/// same name keep their order).
pub fn config_profiles(entries: &Vec<ProfileEntry>) -> (r: Vec<CodexConfigProfileSummary>)
    ensures
        r@.len() == entries@.len(),
        exists|order: Seq<usize>|
            {
                &&& text_sorted(profile_names(entries@), order)
                &&& forall|k: int| 0 <= k < entries@.len() ==> #[trigger] lists_index(order, k)
                &&& forall|i: int|
                    0 <= i < r@.len() ==> summarizes_profile(
                        #[trigger] r@[i],
                        entries@[order[i] as int],
                    )
            },
{
    let mut names: Vec<String> = Vec::new();
    let mut i: usize = 0;
    while i < entries.len()
        invariant
            i <= entries@.len(),
            string_views(names@) == profile_names(entries@).take(i as int),
        decreases entries.len() - i,
    {
        let name = entries[i].name.clone();
        proof {
            assert(name@ == entries@[i as int].name@);
            assert(profile_names(entries@)[i as int] == entries@[i as int].name@);
        }
        let ghost old_names = names@;
        names.push(name);
        proof {
            assert(string_views(names@) =~= string_views(old_names).push(name@));
            assert(profile_names(entries@).take(i + 1) =~= profile_names(entries@).take(
                i as int,
            ).push(name@));
        }
        i = i + 1;
    }
    proof {
        assert(string_views(names@) =~= profile_names(entries@));
    }
    let order = stable_order_by_text(&names);
    let mut out: Vec<CodexConfigProfileSummary> = Vec::new();
    let mut j: usize = 0;
    while j < order.len()
        invariant
            text_sorted(profile_names(entries@), order@),
            j <= order@.len(),
            out@.len() == j,
            forall|a: int|
                0 <= a < j ==> summarizes_profile(#[trigger] out@[a], entries@[order@[a] as int]),
        decreases order.len() - j,
    {
        let e = &entries[order[j]];
        out.push(
            CodexConfigProfileSummary {
                name: e.name.clone(),
                model: clone_opt_string(&e.model),
                model_provider: clone_opt_string(&e.model_provider),
                source: Some(copy_str("codex")),
            },
        );
        j = j + 1;
    }
    out
}

/// A model provider, as the catalog lists it.
#[derive(Debug, Clone)]
pub struct CodexProviderSummary {
    pub id: String,
    pub display_name: Option<String>,
    pub base_url: Option<String>,
    pub wire_api: Option<String>,
    pub env_key: Option<String>,
    pub is_custom: Option<bool>,
}

/// A provider summary as plain values: id, display name, base URL, wire API,
/// environment key, and whether it is custom.
pub type ProviderView = (
    Seq<char>,
    Option<Seq<char>>,
    Option<Seq<char>>,
    Option<Seq<char>>,
    Option<Seq<char>>,
    Option<bool>,
);

impl View for CodexProviderSummary {
    type V = ProviderView;

    open spec fn view(&self) -> ProviderView {
        (
            self.id@,
            opt_string_view(self.display_name),
            opt_string_view(self.base_url),
            opt_string_view(self.wire_api),
            opt_string_view(self.env_key),
            self.is_custom,
        )
    }
}

/// The providers Codex knows without configuration.
pub open spec fn builtin_provider_views() -> Seq<ProviderView> {
    seq![
        (
            "openai"@,
            Some("OpenAI"@),
            Some("https://api.openai.com/v1"@),
            Some("responses"@),
            Some("OPENAI_API_KEY"@),
            Some(false),
        ),
        (
            "ollama"@,
            Some("Ollama"@),
            Some("http://localhost:11434/v1"@),
            Some("chat_completions"@),
            None,
            Some(false),
        ),
        (
            "lmstudio"@,
            Some("LM Studio"@),
            Some("http://localhost:1234/v1"@),
            Some("chat_completions"@),
            None,
            Some(false),
        ),
    ]
}

/// Views of a list of provider summaries.
pub open spec fn provider_views(v: Seq<CodexProviderSummary>) -> Seq<ProviderView> {
    v.map_values(|p: CodexProviderSummary| p@)
}

fn provider_summary(
    id: &str,
    display_name: &str,
    base_url: &str,
    wire_api: &str,
    env_key: Option<&str>,
) -> (r: CodexProviderSummary)
    ensures
        r@ == (
            id@,
            Some(display_name@),
            Some(base_url@),
            Some(wire_api@),
            opt_view(env_key),
            Some(false),
        ),
{
    CodexProviderSummary {
        id: copy_str(id),
        display_name: Some(copy_str(display_name)),
        base_url: Some(copy_str(base_url)),
        wire_api: Some(copy_str(wire_api)),
        env_key: match env_key {
            Some(k) => Some(copy_str(k)),
            None => None,
        },
        is_custom: Some(false),
    }
}

/// The built-in providers: OpenAI, Ollama and LM Studio.
pub fn built_in_provider_summaries() -> (r: Vec<CodexProviderSummary>)
    ensures
        provider_views(r@) == builtin_provider_views(),
{
    let mut r: Vec<CodexProviderSummary> = Vec::new();
    r.push(
        provider_summary(
            "openai",
            "OpenAI",
            "https://api.openai.com/v1",
            "responses",
            Some("OPENAI_API_KEY"),
        ),
    );
    r.push(
        provider_summary("ollama", "Ollama", "http://localhost:11434/v1", "chat_completions", None),
    );
    r.push(
        provider_summary(
            "lmstudio",
            "LM Studio",
            "http://localhost:1234/v1",
            "chat_completions",
            None,
        ),
    );
    proof {
        assert(provider_views(r@) =~= builtin_provider_views());
    }
    r
}

/// A provider defined under `model_providers` in the user's config.
#[derive(Debug, Clone)]
pub struct CustomProviderEntry {
    pub id: String,
    pub base_url: Option<String>,
    pub wire_api: Option<String>,
    pub env_key: Option<String>,
}

/// How the catalog lists a custom provider: named by its id, marked custom.
pub open spec fn custom_view(c: CustomProviderEntry) -> ProviderView {
    (
        c.id@,
        Some(c.id@),
        opt_string_view(c.base_url),
        opt_string_view(c.wire_api),
        opt_string_view(c.env_key),
        Some(true),
    )
}

/// The last custom provider with this id.
pub open spec fn last_custom(customs: Seq<CustomProviderEntry>, id: Seq<char>) -> Option<
    CustomProviderEntry,
>
    decreases customs.len(),
{
    if customs.len() == 0 {
        None
    } else if customs.last().id@ == id {
        Some(customs.last())
    } else {
        last_custom(customs.drop_last(), id)
    }
}

/// The built-in provider with this id.
pub open spec fn builtin_view_for(id: Seq<char>) -> Option<ProviderView> {
    let b = builtin_provider_views();
    if id == b[0].0 {
        Some(b[0])
    } else if id == b[1].0 {
        Some(b[1])
    } else if id == b[2].0 {
        Some(b[2])
    } else {
        None
    }
}

/// The provider the catalog lists under an id: the last custom definition, else the
/// built-in one.
pub open spec fn merged_provider(customs: Seq<CustomProviderEntry>, id: Seq<char>) -> Option<
    ProviderView,
> {
    match last_custom(customs, id) {
        Some(c) => Some(custom_view(c)),
        None => builtin_view_for(id),
    }
}

/// The entries of `v` are exactly the providers listed for the customs, one per id.
pub open spec fn lists_merged(customs: Seq<CustomProviderEntry>, v: Seq<ProviderView>) -> bool {
    &&& forall|a: int, b: int| 0 <= a < b < v.len() ==> (#[trigger] v[a]).0 != (#[trigger] v[b]).0
    &&& forall|a: int| 0 <= a < v.len() ==> merged_provider(customs, (#[trigger] v[a]).0) == Some(v[a])
    &&& forall|id: Seq<char>|
        (#[trigger] merged_provider(customs, id)) is Some ==> exists|a: int|
            0 <= a < v.len() && v[a].0 == id
}

fn custom_summary(c: &CustomProviderEntry) -> (r: CodexProviderSummary)
    ensures
        r@ == custom_view(*c),
{
    CodexProviderSummary {
        id: c.id.clone(),
        display_name: Some(c.id.clone()),
        base_url: clone_opt_string(&c.base_url),
        wire_api: clone_opt_string(&c.wire_api),
        env_key: clone_opt_string(&c.env_key),
        is_custom: Some(true),
    }
}

fn clone_provider(p: &CodexProviderSummary) -> (r: CodexProviderSummary)
    ensures
        r@ == p@,
{
    CodexProviderSummary {
        id: p.id.clone(),
        display_name: clone_opt_string(&p.display_name),
        base_url: clone_opt_string(&p.base_url),
        wire_api: clone_opt_string(&p.wire_api),
        env_key: clone_opt_string(&p.env_key),
        is_custom: p.is_custom,
    }
}

proof fn lemma_builtins_listed()
    ensures
        lists_merged(Seq::empty(), builtin_provider_views()),
{
    reveal_strlit("openai");
    reveal_strlit("ollama");
    reveal_strlit("lmstudio");
    let b = builtin_provider_views();
    assert(b[0].0[1] != b[1].0[1]);
    assert(b[0].0[0] != b[2].0[0]);
    assert(b[1].0[0] != b[2].0[0]);
    assert forall|id: Seq<char>|
        (#[trigger] merged_provider(Seq::empty(), id)) is Some implies exists|a: int|
            0 <= a < b.len() && b[a].0 == id by {
        if id == b[0].0 {
            assert(b[0].0 == id);
        } else if id == b[1].0 {
            assert(b[1].0 == id);
        } else {
            assert(b[2].0 == id);
        }
    }
}

/// The catalog's providers: the built-in ones with the custom ones laid over them by
/// id (a later definition of an id replaces an earlier one), one per id, sorted by id.
pub fn config_providers(customs: &Vec<CustomProviderEntry>) -> (r: Vec<CodexProviderSummary>)
    ensures
        lists_merged(customs@, provider_views(r@)),
        forall|i: int, j: int|
            0 <= i < j < r@.len() ==> text_less((#[trigger] r@[i]).id@, (#[trigger] r@[j]).id@),
{
    let mut merged = built_in_provider_summaries();
    proof {
        lemma_builtins_listed();
        assert(customs@.take(0) =~= Seq::<CustomProviderEntry>::empty());
    }
    let mut i: usize = 0;
    while i < customs.len()
        invariant
            i <= customs@.len(),
            lists_merged(customs@.take(i as int), provider_views(merged@)),
        decreases customs.len() - i,
    {
        let c = &customs[i];
        let ghost before = provider_views(merged@);
        let ghost pre = customs@.take(i as int);
        let ghost post = customs@.take(i + 1);
        proof {
            assert(post.drop_last() =~= pre);
            assert(post.last() == customs@[i as int]);
        }
        let mut j: usize = 0;
        let mut found = false;
        while j < merged.len()
            invariant
                j <= merged@.len(),
                provider_views(merged@) == before,
                !found ==> forall|a: int| 0 <= a < j ==> before[a].0 != c.id@,
                found ==> j < merged@.len() && before[j as int].0 == c.id@,
            ensures
                found ==> j < merged@.len() && before[j as int].0 == c.id@,
                !found ==> j == merged@.len() && forall|a: int| 0 <= a < j ==> before[a].0 != c.id@,
            decreases merged.len() - j,
        {
            if str_eq(merged[j].id.as_str(), c.id.as_str()) {
                found = true;
                break;
            }
            j = j + 1;
        }
        let summary = custom_summary(c);
        if found {
            merged.set(j, summary);
            proof {
                let after = provider_views(merged@);
                assert(after =~= before.update(j as int, custom_view(*c)));
                assert forall|a: int, b: int| 0 <= a < b < after.len() implies (#[trigger] after[a]).0
                    != (#[trigger] after[b]).0 by {
                    assert(before[a].0 != before[b].0);
                }
                assert forall|a: int| 0 <= a < after.len() implies merged_provider(
                    post,
                    (#[trigger] after[a]).0,
                ) == Some(after[a]) by {
                    if a != j {
                        assert(before[a].0 != before[j as int].0);
                    }
                }
                assert forall|id: Seq<char>| (#[trigger] merged_provider(post, id)) is Some implies exists|a: int|
                    0 <= a < after.len() && after[a].0 == id by {
                    if id == c.id@ {
                        assert(after[j as int].0 == id);
                    } else {
                        assert(merged_provider(pre, id) is Some);
                        let a = choose|a: int| 0 <= a < before.len() && before[a].0 == id;
                        assert(after[a].0 == id);
                    }
                }
            }
        } else {
            merged.push(summary);
            proof {
                let after = provider_views(merged@);
                assert(after =~= before.push(custom_view(*c)));
                assert forall|a: int, b: int| 0 <= a < b < after.len() implies (#[trigger] after[a]).0
                    != (#[trigger] after[b]).0 by {
                    if b < before.len() {
                        assert(before[a].0 != before[b].0);
                    }
                }
                assert forall|a: int| 0 <= a < after.len() implies merged_provider(
                    post,
                    (#[trigger] after[a]).0,
                ) == Some(after[a]) by {
                    if a < before.len() {
                        assert(before[a].0 != c.id@);
                        assert(merged_provider(pre, before[a].0) == Some(before[a]));
                    }
                }
                assert forall|id: Seq<char>| (#[trigger] merged_provider(post, id)) is Some implies exists|a: int|
                    0 <= a < after.len() && after[a].0 == id by {
                    if id == c.id@ {
                        assert(after[before.len() as int].0 == id);
                    } else {
                        assert(merged_provider(pre, id) is Some);
                        let a = choose|a: int| 0 <= a < before.len() && before[a].0 == id;
                        assert(after[a].0 == id);
                    }
                }
            }
        }
        i = i + 1;
    }
    proof {
        assert(customs@.take(i as int) =~= customs@);
    }
    let ghost mv = provider_views(merged@);
    let mut ids: Vec<String> = Vec::new();
    let mut k: usize = 0;
    while k < merged.len()
        invariant
            k <= merged@.len(),
            mv == provider_views(merged@),
            ids@.len() == k,
            forall|a: int| 0 <= a < k ==> (#[trigger] ids@[a])@ == mv[a].0,
        decreases merged.len() - k,
    {
        ids.push(merged[k].id.clone());
        k = k + 1;
    }
    proof {
        assert(string_views(ids@) =~= mv.map_values(|p: ProviderView| p.0));
    }
    let order = stable_order_by_text(&ids);
    let ghost keys = string_views(ids@);
    let mut out: Vec<CodexProviderSummary> = Vec::new();
    let mut m: usize = 0;
    while m < order.len()
        invariant
            m <= order@.len(),
            order@.len() == merged@.len(),
            mv == provider_views(merged@),
            keys == string_views(ids@),
            keys == mv.map_values(|p: ProviderView| p.0),
            text_sorted(keys, order@),
            out@.len() == m,
            forall|a: int| 0 <= a < m ==> (#[trigger] out@[a])@ == mv[order@[a] as int],
        decreases order.len() - m,
    {
        out.push(clone_provider(&merged[order[m]]));
        m = m + 1;
    }
    proof {
        let ov = provider_views(out@);
        assert forall|a: int, b: int| 0 <= a < b < out@.len() implies text_less(
            (#[trigger] out@[a]).id@,
            (#[trigger] out@[b]).id@,
        ) by {
            let oa = order@[a] as int;
            let ob = order@[b] as int;
            assert(keys[oa] == mv[oa].0);
            assert(keys[ob] == mv[ob].0);
            if !text_less(keys[oa], keys[ob]) {
                assert(keys[oa] == keys[ob] && oa < ob);
                assert(mv[oa].0 != mv[ob].0);
            }
        }
        assert forall|a: int, b: int| 0 <= a < b < ov.len() implies (#[trigger] ov[a]).0 != (#[trigger] ov[b]).0 by {
            assert(ov[a] == out@[a]@);
            assert(ov[b] == out@[b]@);
            assert(text_less(out@[a].id@, out@[b].id@));
            lemma_text_less_irreflexive(out@[a].id@);
        }
        assert forall|a: int| 0 <= a < ov.len() implies merged_provider(customs@, (#[trigger] ov[a]).0)
            == Some(ov[a]) by {
            assert(ov[a] == mv[order@[a] as int]);
        }
        assert forall|id: Seq<char>| (#[trigger] merged_provider(customs@, id)) is Some implies exists|a: int|
            0 <= a < ov.len() && ov[a].0 == id by {
            let x = choose|x: int| 0 <= x < mv.len() && mv[x].0 == id;
            assert(lists_index(order@, x));
            let a = choose|a: int| 0 <= a < order@.len() && order@[a] == x;
            assert(ov[a] == mv[x]);
        }
    }
    out
}

/// Marker printed before the `PATH` of a login shell.
pub open spec fn probe_sentinel() -> Seq<char> {
    "__ORBITDOCK_PATH__"@
}

/// The rest of the first line, from `k` on, that starts with the marker.
pub open spec fn probe_from(lines: Seq<Seq<char>>, k: int) -> Option<Seq<char>>
    decreases lines.len() - k,
{
    if k >= lines.len() || k < 0 {
        None
    } else if has_prefix(lines[k], probe_sentinel()) {
        Some(lines[k].subrange(probe_sentinel().len() as int, lines[k].len() as int))
    } else {
        probe_from(lines, k + 1)
    }
}

fn line_at(parts: &Vec<Vec<char>>, k: usize) -> (r: Vec<char>)
    requires
        k < parts@.len(),
    ensures
        r@ == (if k + 1 < parts@.len() {
            strip_cr(parts@[k as int]@)
        } else {
            parts@[k as int]@
        }),
{
    let p = &parts[k];
    if k < parts.len() - 1 && p.len() > 0 && p[p.len() - 1] == '\r' {
        let mut r: Vec<char> = Vec::new();
        let mut i: usize = 0;
        while i + 1 < p.len()
            invariant
                p@.len() > 0,
                i + 1 <= p@.len(),
                r@ == p@.subrange(0, i as int),
            decreases p.len() - i,
        {
            r.push(p[i]);
            proof {
                assert(r@ =~= p@.subrange(0, i + 1));
            }
            i = i + 1;
        }
        proof {
            assert(r@ =~= p@.drop_last());
        }
        r
    } else {
        let mut r: Vec<char> = Vec::new();
        let mut i: usize = 0;
        while i < p.len()
            invariant
                i <= p@.len(),
                r@ == p@.subrange(0, i as int),
            decreases p.len() - i,
        {
            r.push(p[i]);
            proof {
                assert(r@ =~= p@.subrange(0, i + 1));
            }
            i = i + 1;
        }
        proof {
            assert(r@ =~= p@);
        }
        r
    }
}

/// The `PATH` a login shell printed after the marker: the rest of the first output
/// line that starts with it.
pub fn extract_probe_path(output: &str) -> (r: Option<String>)
    ensures
        match probe_from(text_lines(output@), 0) {
            Some(p) => r matches Some(v) && v@ == p,
            None => r is None,
        },
{
    let chars = to_chars(output);
    let parts = split_chars(&chars, '\n');
    let ghost sp = split_on(output@, '\n');
    let ghost lines = text_lines(output@);
    proof {
        lemma_split_on_nonempty(output@, '\n');
    }
    let n = parts.len();
    let sentinel = to_chars("__ORBITDOCK_PATH__");
    let mut k: usize = 0;
    while k < n
        invariant
            n == parts@.len() == sp.len() >= 1,
            sp == split_on(output@, '\n'),
            lines == text_lines(output@),
            forall|j: int| 0 <= j < n ==> (#[trigger] parts@[j])@ == sp[j],
            sentinel@ == probe_sentinel(),
            k <= n,
            probe_from(lines, 0) == probe_from(lines, k as int),
            k == n ==> sp.last().len() > 0,
        decreases n - k,
    {
        let line = line_at(&parts, k);
        let is_last = k == n - 1;
        if is_last && line.len() == 0 {
            proof {
                assert(lines.len() == n - 1);
                assert(probe_from(lines, k as int) == None::<Seq<char>>);
            }
            return None;
        }
        proof {
            assert(lines[k as int] == line@);
        }
        if chars_starts_with(&line, &sentinel) {
            let rest = string_from_range(&line, sentinel.len(), line.len());
            return Some(rest);
        }
        k = k + 1;
    }
    proof {
        assert(lines.len() == n);
        assert(probe_from(lines, n as int) == None::<Seq<char>>);
    }
    None
}

/// The non-blank entries, trimmed, each kept only the first time it occurs.
pub open spec fn deduped_entries(entries: Seq<String>) -> Seq<Seq<char>>
    decreases entries.len(),
{
    if entries.len() == 0 {
        Seq::empty()
    } else {
        let prev = deduped_entries(entries.drop_last());
        let t = trim(entries.last()@);
        if t.len() == 0 || prev.contains(t) {
            prev
        } else {
            prev.push(t)
        }
    }
}

/// The parts joined with `sep` between each two.
pub open spec fn join_with(parts: Seq<Seq<char>>, sep: char) -> Seq<char>
    decreases parts.len(),
{
    if parts.len() == 0 {
        Seq::empty()
    } else if parts.len() == 1 {
        parts[0]
    } else {
        join_with(parts.drop_last(), sep) + seq![sep] + parts.last()
    }
}

/// A search path from candidate directories: trimmed, blanks dropped, each directory
/// once in first-seen order, joined with `:`; `None` when nothing is left.
pub fn dedup_non_empty(entries: Vec<String>) -> (r: Option<String>)
    ensures
        match r {
            Some(v) => deduped_entries(entries@).len() > 0 && v@ == join_with(
                deduped_entries(entries@),
                ':',
            ),
            None => deduped_entries(entries@).len() == 0,
        },
{
    let mut deduped: Vec<String> = Vec::new();
    let mut i: usize = 0;
    while i < entries.len()
        invariant
            i <= entries@.len(),
            string_views(deduped@) == deduped_entries(entries@.take(i as int)),
        decreases entries.len() - i,
    {
        proof {
            assert(entries@.take(i + 1).drop_last() =~= entries@.take(i as int));
            assert(entries@.take(i + 1).last() == entries@[i as int]);
        }
        let trimmed = trim_str(entries[i].as_str());
        if trimmed.as_str().unicode_len() > 0 {
            let mut seen = false;
            let mut j: usize = 0;
            while j < deduped.len()
                invariant
                    j <= deduped@.len(),
                    seen == exists|a: int| 0 <= a < j && string_views(deduped@)[a] == trimmed@,
                decreases deduped.len() - j,
            {
                if str_eq(deduped[j].as_str(), trimmed.as_str()) {
                    seen = true;
                }
                proof {
                    if string_views(deduped@)[j as int] == trimmed@ {
                        assert(exists|a: int| 0 <= a < j + 1 && string_views(deduped@)[a] == trimmed@);
                    }
                }
                j = j + 1;
            }
            proof {
                if seen {
                    let a = choose|a: int| 0 <= a < j && string_views(deduped@)[a] == trimmed@;
                    assert(string_views(deduped@).contains(trimmed@));
                } else {
                    assert(!string_views(deduped@).contains(trimmed@));
                }
            }
            if !seen {
                let ghost before = deduped@;
                deduped.push(trimmed);
                proof {
                    assert(string_views(deduped@) =~= string_views(before).push(trim(entries@[i as int]@)));
                }
            }
        }
        i = i + 1;
    }
    proof {
        assert(entries@.take(i as int) =~= entries@);
    }
    if deduped.len() == 0 {
        return None;
    }
    let ghost d = string_views(deduped@);
    let mut out = deduped[0].clone();
    proof {
        assert(d.take(1).drop_last().len() == 0);
        assert(join_with(d.take(1), ':') == d[0]);
    }
    let mut k: usize = 1;
    while k < deduped.len()
        invariant
            1 <= k <= deduped@.len(),
            d == string_views(deduped@),
            out@ == join_with(d.take(k as int), ':'),
        decreases deduped.len() - k,
    {
        proof {
            assert(d.take(k + 1).drop_last() =~= d.take(k as int));
            assert(d.take(k + 1).last() == d[k as int]);
        }
        out.append(":");
        out.append(deduped[k].as_str());
        proof {
            reveal_strlit(":");
            assert(out@ =~= join_with(d.take(k as int), ':') + seq![':'] + d[k as int]);
        }
        k = k + 1;
    }
    proof {
        assert(d.take(k as int) =~= d);
    }
    Some(out)
}

/// The kind of layer a Codex config value came from, with where it lives.
#[derive(Debug, Clone)]
pub enum ConfigLayerSource {
    Mdm { domain: String, key: String },
    System { file: String },
    User { file: String },
    Project { dot_codex_folder: String },
    SessionFlags,
    LegacyManagedConfigTomlFromFile { file: String },
    LegacyManagedConfigTomlFromMdm,
}

/// The name the inspector gives a layer's kind.
pub open spec fn source_kind(source: ConfigLayerSource) -> Seq<char> {
    match source {
        ConfigLayerSource::Mdm { .. } => "mdm"@,
        ConfigLayerSource::System { .. } => "system"@,
        ConfigLayerSource::User { .. } => "user"@,
        ConfigLayerSource::Project { .. } => "project"@,
        ConfigLayerSource::SessionFlags => "session_flags"@,
        ConfigLayerSource::LegacyManagedConfigTomlFromFile { .. } => "legacy_managed_file"@,
        ConfigLayerSource::LegacyManagedConfigTomlFromMdm => "legacy_managed_mdm"@,
    }
}

/// Where a layer lives: `domain:key` for a managed-device layer, the file or folder
/// for file layers, nothing for session flags and managed-device legacy config.
pub open spec fn source_location(source: ConfigLayerSource) -> Option<Seq<char>> {
    match source {
        ConfigLayerSource::Mdm { domain, key } => Some(domain@ + ":"@ + key@),
        ConfigLayerSource::System { file } => Some(file@),
        ConfigLayerSource::User { file } => Some(file@),
        ConfigLayerSource::Project { dot_codex_folder } => Some(dot_codex_folder@),
        ConfigLayerSource::SessionFlags => None,
        ConfigLayerSource::LegacyManagedConfigTomlFromFile { file } => Some(file@),
        ConfigLayerSource::LegacyManagedConfigTomlFromMdm => None,
    }
}

/// The name of a layer's kind.
pub fn source_kind_name(source: &ConfigLayerSource) -> (r: String)
    ensures
        r@ == source_kind(*source),
{
    match source {
        ConfigLayerSource::Mdm { .. } => copy_str("mdm"),
        ConfigLayerSource::System { .. } => copy_str("system"),
        ConfigLayerSource::User { .. } => copy_str("user"),
        ConfigLayerSource::Project { .. } => copy_str("project"),
        ConfigLayerSource::SessionFlags => copy_str("session_flags"),
        ConfigLayerSource::LegacyManagedConfigTomlFromFile { .. } => copy_str("legacy_managed_file"),
        ConfigLayerSource::LegacyManagedConfigTomlFromMdm => copy_str("legacy_managed_mdm"),
    }
}

/// Where a layer lives.
pub fn source_path(source: &ConfigLayerSource) -> (r: Option<String>)
    ensures
        opt_string_view(r) == source_location(*source),
{
    match source {
        ConfigLayerSource::Mdm { domain, key } => {
            let mut v = domain.clone();
            v.append(":");
            v.append(key.as_str());
            Some(v)
        },
        ConfigLayerSource::System { file } => Some(file.clone()),
        ConfigLayerSource::User { file } => Some(file.clone()),
        ConfigLayerSource::Project { dot_codex_folder } => Some(dot_codex_folder.clone()),
        ConfigLayerSource::SessionFlags => None,
        ConfigLayerSource::LegacyManagedConfigTomlFromFile { file } => Some(file.clone()),
        ConfigLayerSource::LegacyManagedConfigTomlFromMdm => None,
    }
}

/// The inspector's origin of a layer: its kind, where it lives, and its version.
pub fn layer_origin(source: &ConfigLayerSource, version: &str) -> (r: CodexInspectorOrigin)
    ensures
        r.source_kind@ == source_kind(*source),
        opt_string_view(r.path) == source_location(*source),
        r.version@ == version@,
{
    CodexInspectorOrigin {
        source_kind: source_kind_name(source),
        path: source_path(source),
        version: copy_str(version),
    }
}

/// Outcome of a config write.
#[derive(Debug, Clone, Copy, PartialEq, Eq, Structural)]
pub enum WriteStatus {
    Applied,
    Overridden,
}

/// The status name a config write is reported with.
pub fn write_status_name(status: WriteStatus) -> (r: String)
    ensures
        r@ == (match status {
            WriteStatus::Applied => "ok"@,
            WriteStatus::Overridden => "ok_overridden"@,
        }),
{
    match status {
        WriteStatus::Applied => copy_str("ok"),
        WriteStatus::Overridden => copy_str("ok_overridden"),
    }
}

/// The error reported for a failed JSON-RPC call: `<method> failed: <message>`, with a
/// generic message when the error carries none.
pub fn json_rpc_error_message(method: &str, message: Option<&str>) -> (r: String)
    ensures
        r@ == method@ + " failed: "@ + match message {
            Some(m) => m@,
            None => "Unknown JSON-RPC error"@,
        },
{
    let mut r = copy_str(method);
    r.append(" failed: ");
    match message {
        Some(m) => r.append(m),
        None => r.append("Unknown JSON-RPC error"),
    }
    r
}

/// Only custom mode keeps a model override: a normalized selection in inherit or
/// profile mode overrides neither the model nor its provider, and only profile mode
/// keeps a profile.
pub proof fn only_custom_mode_overrides_the_model(s: CodexConfigSelection)
    ensures
        normalized_selection(s).config_mode != CodexConfigMode::Custom ==> {
            &&& normalized_selection(s).overrides.model is None
            &&& normalized_selection(s).overrides.model_provider is None
            &&& normalized_selection(s).model_provider is None
        },
        normalized_selection(s).config_mode != CodexConfigMode::Profile ==> normalized_selection(
            s,
        ).config_profile is None,
{
}

proof fn lemma_deduped_distinct_nonblank(entries: Seq<String>)
    ensures
        forall|a: int, b: int|
            0 <= a < b < deduped_entries(entries).len() ==> #[trigger] deduped_entries(entries)[a]
                != #[trigger] deduped_entries(entries)[b],
        forall|a: int|
            0 <= a < deduped_entries(entries).len() ==> (#[trigger] deduped_entries(entries)[a]).len()
                > 0,
    decreases entries.len(),
{
    if entries.len() > 0 {
        lemma_deduped_distinct_nonblank(entries.drop_last());
        let prev = deduped_entries(entries.drop_last());
        let t = trim(entries.last()@);
        let d = deduped_entries(entries);
        if !(t.len() == 0 || prev.contains(t)) {
            assert(d == prev.push(t));
            assert forall|a: int, b: int| 0 <= a < b < d.len() implies #[trigger] d[a] != #[trigger] d[b] by {
                if b == prev.len() {
                    if d[a] == d[b] {
                        assert(prev[a] == t);
                        assert(prev.contains(t));
                    }
                } else {
                    assert(d[a] == prev[a] && d[b] == prev[b]);
                }
            }
            assert forall|a: int| 0 <= a < d.len() implies (#[trigger] d[a]).len() > 0 by {
                if a < prev.len() {
                    assert(d[a] == prev[a]);
                }
            }
        }
    }
}

/// A search path names each directory once, and no blank one.
pub proof fn search_path_entries_are_distinct_and_nonblank(entries: Seq<String>)
    ensures
        forall|a: int, b: int|
            0 <= a < b < deduped_entries(entries).len() ==> #[trigger] deduped_entries(entries)[a]
                != #[trigger] deduped_entries(entries)[b],
        forall|a: int|
            0 <= a < deduped_entries(entries).len() ==> (#[trigger] deduped_entries(entries)[a]).len()
                > 0,
{
    lemma_deduped_distinct_nonblank(entries);
}

/// The `PATH` a Codex process is started with: the binary's own directory first, then
/// the search path entries, deduplicated and joined as `dedup_non_empty` does.
pub fn resolved_path_env(binary_dir: Option<String>, path_entries: Vec<String>) -> (r: Option<
    String,
>)
    ensures
        ({
            let all = match binary_dir {
                Some(d) => seq![d] + path_entries@,
                None => path_entries@,
            };
            match r {
                Some(v) => deduped_entries(all).len() > 0 && v@ == join_with(deduped_entries(all), ':'),
                None => deduped_entries(all).len() == 0,
            }
        }),
{
    let mut entries: Vec<String> = Vec::new();
    let ghost dir = binary_dir;
    match binary_dir {
        Some(d) => entries.push(d),
        None => {},
    }
    let mut i: usize = 0;
    let ghost start = entries@;
    while i < path_entries.len()
        invariant
            i <= path_entries@.len(),
            entries@ == start + path_entries@.take(i as int),
        decreases path_entries.len() - i,
    {
        entries.push(path_entries[i].clone());
        proof {
            assert(entries@ =~= start + path_entries@.take(i + 1));
        }
        i = i + 1;
    }
    proof {
        assert(path_entries@.take(i as int) =~= path_entries@);
        match dir {
            Some(d) => assert(entries@ =~= seq![d] + path_entries@),
            None => assert(entries@ =~= path_entries@),
        }
    }
    dedup_non_empty(entries)
}

/// A resumed session runs as it ran before: from its stored source (the user's when none
/// was stored) and its stored mode; without a stored mode, in the profile mode when a
/// profile is set, else in the custom mode when a provider is set, else inheriting. Only
/// the custom mode keeps a provider and only the profile mode a profile.
pub proof fn resume_runs_in_its_stored_mode(r: CodexResumeRequest)
    ensures
        ({
            let s = normalized_selection(resume_selection(r));
            &&& r.codex_config_source matches Some(src) ==> s.config_source == src
            &&& r.codex_config_source is None ==> s.config_source == CodexConfigSource::User
            &&& r.codex_config_mode matches Some(m) ==> s.config_mode == m
            &&& r.codex_config_mode is None && is_filled(r.codex_config_profile) ==> s.config_mode
                == CodexConfigMode::Profile
            &&& r.codex_config_mode is None && !is_filled(r.codex_config_profile) && is_filled(
                r.codex_model_provider,
            ) ==> s.config_mode == CodexConfigMode::Custom
            &&& r.codex_config_mode is None && !is_filled(r.codex_config_profile) && !is_filled(
                r.codex_model_provider,
            ) ==> s.config_mode == CodexConfigMode::Inherit
            &&& s.config_mode == CodexConfigMode::Custom ==> s.model_provider
                == r.codex_model_provider && s.config_profile is None
            &&& s.config_mode == CodexConfigMode::Profile ==> s.config_profile
                == r.codex_config_profile && s.model_provider is None
            &&& s.config_mode == CodexConfigMode::Inherit ==> s.config_profile is None
                && s.model_provider is None
        }),
{
}

/// A resumed session keeps its settings. Where no overrides were stored, it resumes with
/// the session's own stored settings as its overrides: approval policy, sandbox mode,
/// collaboration mode, multi-agent switch, personality, service tier and developer
/// instructions as stored; model and provider as stored in the custom mode, and none in
/// the other modes, which take them from elsewhere; no approval details, approvals
/// choice or effort. Where overrides were stored, it resumes with them, model and
/// provider again kept only in the custom mode.
pub proof fn resume_keeps_the_session_settings(r: CodexResumeRequest)
    ensures
        ({
            let s = normalized_selection(resume_selection(r));
            let o = s.overrides;
            &&& r.codex_config_overrides is None ==> {
                &&& o.approval_policy == r.approval_policy
                &&& o.sandbox_mode == r.sandbox_mode
                &&& o.collaboration_mode == r.collaboration_mode
                &&& o.multi_agent == r.multi_agent
                &&& o.personality == r.personality
                &&& o.service_tier == r.service_tier
                &&& o.developer_instructions == r.developer_instructions
                &&& o.approval_policy_details is None
                &&& o.approvals_reviewer is None
                &&& o.effort is None
                &&& s.config_mode == CodexConfigMode::Custom ==> o.model == r.model
                    && o.model_provider == r.codex_model_provider
            }
            &&& r.codex_config_overrides matches Some(stored) ==> {
                &&& o.approval_policy == stored.approval_policy
                &&& o.approval_policy_details == stored.approval_policy_details
                &&& o.sandbox_mode == stored.sandbox_mode
                &&& o.approvals_reviewer == stored.approvals_reviewer
                &&& o.collaboration_mode == stored.collaboration_mode
                &&& o.multi_agent == stored.multi_agent
                &&& o.personality == stored.personality
                &&& o.service_tier == stored.service_tier
                &&& o.developer_instructions == stored.developer_instructions
                &&& o.effort == stored.effort
                &&& s.config_mode == CodexConfigMode::Custom ==> o.model == stored.model
                    && o.model_provider == stored.model_provider
            }
            &&& s.config_mode != CodexConfigMode::Custom ==> o.model is None && o.model_provider
                is None
        }),
{
}

} // verus!
