//! Which persisted commands are mirrored to the control plane, and when: workspace
//! configuration and mission administration never are; a written row is mirrored only
//! once the database has given it its sequence, and the control plane replays it under
//! exactly that sequence; everything else is mirrored as it is sent. Also which missions
//! a replayed batch touched.
use vstd::prelude::*;

use crate::conversation::ConversationRowEntry;
use crate::text::{lemma_text_less_total, lemma_text_less_transitive, str_eq, str_less, text_less};

verus! {

/// The kinds of write the persistence writer performs.
#[derive(Debug, Clone, Copy, PartialEq, Eq, Structural)]
pub enum PersistCommandKind {
    SessionCreate,
    SessionUpdate,
    SessionEnd,
    RowAppend,
    RowUpsert,
    TokensUpdate,
    TurnStateUpdate,
    TurnDiffInsert,
    SetThreadId,
    CleanupThreadShadowSession,
    SetClaudeSdkSessionId,
    CleanupClaudeShadowSession,
    SetCustomName,
    SetSummary,
    SetTranscriptPath,
    SessionAttentionUpdate,
    SetSessionConfig,
    MarkSessionRead,
    ReactivateSession,
    ClaudeSessionUpsert,
    ClaudeSessionUpdate,
    ClaudeSessionEnd,
    ClaudePromptIncrement,
    ClaudeToolIncrement,
    ToolCountIncrement,
    ModelUpdate,
    EffortUpdate,
    ClaudeSubagentStart,
    ClaudeSubagentEnd,
    UpsertSubagent,
    UpsertSubagents,
    CodexPromptIncrement,
    ApprovalRequested,
    ApprovalDecision,
    ReviewCommentCreate,
    ReviewCommentUpdate,
    ReviewCommentDelete,
    SetIntegrationMode,
    EnvironmentUpdate,
    SetConfig,
    WorktreeCreate,
    WorktreeUpdateStatus,
    MissionCreate,
    MissionUpdate,
    MissionSetTrackerKey,
    MissionDelete,
    MissionIssueUpsert,
    MissionIssueUpdateState,
    MissionIssueSetPrUrl,
    RowsTurnStatusUpdate,
}

/// When a command of a kind is mirrored to the control plane.
#[derive(Debug, Clone, Copy, PartialEq, Eq, Structural)]
pub enum SyncMirror {
    Never,
    WithAssignedSequence,
    Immediately,
}

/// Commands that stay on this machine: workspace configuration and mission
/// administration.
pub open spec fn stays_local(kind: PersistCommandKind) -> bool {
    kind == PersistCommandKind::SetConfig || kind == PersistCommandKind::MissionCreate || kind
        == PersistCommandKind::MissionUpdate || kind == PersistCommandKind::MissionSetTrackerKey
        || kind == PersistCommandKind::MissionDelete
}

/// Commands that write a conversation row, whose sequence the database assigns.
pub open spec fn writes_row(kind: PersistCommandKind) -> bool {
    kind == PersistCommandKind::RowAppend || kind == PersistCommandKind::RowUpsert
}

/// When commands of a kind are mirrored.
pub open spec fn mirror_of(kind: PersistCommandKind) -> SyncMirror {
    if stays_local(kind) {
        SyncMirror::Never
    } else if writes_row(kind) {
        SyncMirror::WithAssignedSequence
    } else {
        SyncMirror::Immediately
    }
}

/// When commands of a kind are mirrored to the control plane.
pub fn sync_mirror(kind: PersistCommandKind) -> (r: SyncMirror)
    ensures
        r == mirror_of(kind),
{
    match kind {
        PersistCommandKind::SetConfig
        | PersistCommandKind::MissionCreate
        | PersistCommandKind::MissionUpdate
        | PersistCommandKind::MissionSetTrackerKey
        | PersistCommandKind::MissionDelete => SyncMirror::Never,
        PersistCommandKind::RowAppend | PersistCommandKind::RowUpsert => SyncMirror::WithAssignedSequence,
        _ => SyncMirror::Immediately,
    }
}

/// How a replayed command touches a mission.
#[derive(Debug, Clone, Copy, PartialEq, Eq, Structural)]
pub enum MissionLink {
    /// The command names its mission (a session created for a mission, or a mission issue).
    Named,
    /// The command touches its session's mission, if the session belongs to one.
    ThroughSession,
    Unrelated,
}

/// How commands of a kind touch a mission.
pub open spec fn mission_link_of(kind: PersistCommandKind) -> MissionLink {
    match kind {
        PersistCommandKind::SessionCreate
        | PersistCommandKind::MissionIssueUpsert
        | PersistCommandKind::MissionIssueUpdateState
        | PersistCommandKind::MissionIssueSetPrUrl => MissionLink::Named,
        PersistCommandKind::SessionUpdate
        | PersistCommandKind::SessionEnd
        | PersistCommandKind::SetThreadId
        | PersistCommandKind::SetClaudeSdkSessionId
        | PersistCommandKind::SetCustomName
        | PersistCommandKind::SetSummary
        | PersistCommandKind::SetTranscriptPath
        | PersistCommandKind::SessionAttentionUpdate
        | PersistCommandKind::SetSessionConfig
        | PersistCommandKind::MarkSessionRead
        | PersistCommandKind::ReactivateSession
        | PersistCommandKind::TokensUpdate
        | PersistCommandKind::TurnStateUpdate
        | PersistCommandKind::TurnDiffInsert
        | PersistCommandKind::RowAppend
        | PersistCommandKind::RowUpsert
        | PersistCommandKind::ToolCountIncrement
        | PersistCommandKind::ModelUpdate
        | PersistCommandKind::EffortUpdate
        | PersistCommandKind::UpsertSubagent
        | PersistCommandKind::UpsertSubagents => MissionLink::ThroughSession,
        _ => MissionLink::Unrelated,
    }
}

/// How a replayed command of a kind touches a mission.
pub fn mission_link(kind: PersistCommandKind) -> (r: MissionLink)
    ensures
        r == mission_link_of(kind),
{
    match kind {
        PersistCommandKind::SessionCreate
        | PersistCommandKind::MissionIssueUpsert
        | PersistCommandKind::MissionIssueUpdateState
        | PersistCommandKind::MissionIssueSetPrUrl => MissionLink::Named,
        PersistCommandKind::SessionUpdate
        | PersistCommandKind::SessionEnd
        | PersistCommandKind::SetThreadId
        | PersistCommandKind::SetClaudeSdkSessionId
        | PersistCommandKind::SetCustomName
        | PersistCommandKind::SetSummary
        | PersistCommandKind::SetTranscriptPath
        | PersistCommandKind::SessionAttentionUpdate
        | PersistCommandKind::SetSessionConfig
        | PersistCommandKind::MarkSessionRead
        | PersistCommandKind::ReactivateSession
        | PersistCommandKind::TokensUpdate
        | PersistCommandKind::TurnStateUpdate
        | PersistCommandKind::TurnDiffInsert
        | PersistCommandKind::RowAppend
        | PersistCommandKind::RowUpsert
        | PersistCommandKind::ToolCountIncrement
        | PersistCommandKind::ModelUpdate
        | PersistCommandKind::EffortUpdate
        | PersistCommandKind::UpsertSubagent
        | PersistCommandKind::UpsertSubagents => MissionLink::ThroughSession,
        _ => MissionLink::Unrelated,
    }
}

/// Strictly ascending text, so no text occurs twice.
pub open spec fn strictly_sorted(v: Seq<String>) -> bool {
    forall|i: int, j: int| 0 <= i < j < v.len() ==> text_less((#[trigger] v[i])@, (#[trigger] v[j])@)
}

/// A list holds the text.
pub open spec fn holds_text(v: Seq<String>, t: Seq<char>) -> bool {
    exists|i: int| 0 <= i < v.len() && (#[trigger] v[i])@ == t
}

fn insert_sorted_unique(v: &mut Vec<String>, s: String)
    requires
        strictly_sorted(old(v)@),
    ensures
        strictly_sorted(final(v)@),
        forall|t: Seq<char>| #[trigger] holds_text(final(v)@, t) <==> (holds_text(old(v)@, t) || t == s@),
{
    let mut p: usize = 0;
    while p < v.len() && str_less(v[p].as_str(), s.as_str())
        invariant
            p <= v@.len(),
            v@ == old(v)@,
            strictly_sorted(v@),
            forall|a: int| 0 <= a < p ==> text_less((#[trigger] v@[a])@, s@),
        decreases v@.len() - p,
    {
        p = p + 1;
    }
    let ghost before = v@;
    if p < v.len() && str_eq(v[p].as_str(), s.as_str()) {
        assert(holds_text(before, s@)) by {
            assert(before[p as int]@ == s@);
        }
        return;
    }
    proof {
        if p < before.len() {
            lemma_text_less_total(before[p as int]@, s@);
            assert(text_less(s@, before[p as int]@));
        }
    }
    v.insert(p, s);
    proof {
        let after = v@;
        assert forall|i: int, j: int| 0 <= i < j < after.len() implies text_less(
            (#[trigger] after[i])@,
            (#[trigger] after[j])@,
        ) by {
            if j < p {
                assert(after[i] == before[i] && after[j] == before[j]);
            } else if j == p {
                assert(after[i] == before[i]);
            } else if i < p {
                assert(after[i] == before[i] && after[j] == before[j - 1]);
                assert(text_less(before[i]@, s@));
                if j - 1 > p {
                    assert(text_less(before[p as int]@, before[j - 1]@));
                    lemma_text_less_transitive(s@, before[p as int]@, before[j - 1]@);
                }
                lemma_text_less_transitive(before[i]@, s@, before[j - 1]@);
            } else if i == p {
                assert(after[j] == before[j - 1]);
                if j - 1 > p {
                    assert(text_less(before[p as int]@, before[j - 1]@));
                    lemma_text_less_transitive(s@, before[p as int]@, before[j - 1]@);
                }
            } else {
                assert(after[i] == before[i - 1] && after[j] == before[j - 1]);
            }
        }
        assert forall|t: Seq<char>| #[trigger] holds_text(after, t) <==> (holds_text(before, t) || t == s@) by {
            if holds_text(after, t) {
                let i = choose|i: int| 0 <= i < after.len() && (#[trigger] after[i])@ == t;
                if i < p {
                    assert(after[i] == before[i]);
                } else if i > p {
                    assert(after[i] == before[i - 1]);
                }
            }
            if holds_text(before, t) {
                let i = choose|i: int| 0 <= i < before.len() && (#[trigger] before[i])@ == t;
                if i < p {
                    assert(after[i] == before[i]);
                } else {
                    assert(after[i + 1] == before[i]);
                }
            }
            if t == s@ {
                assert(after[p as int]@ == t);
            }
        }
    }
}

/// The missions a replayed batch touched, each once and in ascending order: the
/// workspace's own mission, if it has one, and every mission its commands touched.
pub fn touched_mission_ids(own_mission: &Option<String>, touched: &Vec<String>) -> (r: Vec<String>)
    ensures
        strictly_sorted(r@),
        forall|t: Seq<char>|
            #[trigger] holds_text(r@, t) <==> ((own_mission matches Some(m) && m@ == t) || holds_text(
                touched@,
                t,
            )),
{
    let mut out: Vec<String> = Vec::new();
    match own_mission {
        Some(m) => insert_sorted_unique(&mut out, m.clone()),
        None => {},
    }
    let mut i: usize = 0;
    while i < touched.len()
        invariant
            i <= touched@.len(),
            strictly_sorted(out@),
            forall|t: Seq<char>|
                #[trigger] holds_text(out@, t) <==> ((own_mission matches Some(m) && m@ == t)
                    || holds_text(touched@.take(i as int), t)),
        decreases touched@.len() - i,
    {
        let ghost before = out@;
        insert_sorted_unique(&mut out, touched[i].clone());
        proof {
            let pre = touched@.take(i as int);
            let post = touched@.take(i as int + 1);
            assert forall|t: Seq<char>| #[trigger] holds_text(post, t) <==> (holds_text(pre, t) || t == touched@[i as int]@) by {
                if holds_text(post, t) {
                    let k = choose|k: int| 0 <= k < post.len() && (#[trigger] post[k])@ == t;
                    if k < i {
                        assert(pre[k] == post[k]);
                    }
                }
                if holds_text(pre, t) {
                    let k = choose|k: int| 0 <= k < pre.len() && (#[trigger] pre[k])@ == t;
                    assert(post[k] == pre[k]);
                }
                if t == touched@[i as int]@ {
                    assert(post[i as int]@ == t);
                }
            }
        }
        i = i + 1;
    }
    proof {
        assert(touched@.take(touched@.len() as int) =~= touched@);
    }
    out
}

/// A write for the persistence writer. The commands the control plane mirrors
/// unchanged carry all their fields in one payload `S`, which this library moves whole
/// and never reads; row writes and the commands that stay on this machine are spelled
/// out. A row's `assigned_sequence` is the sequence it is to be written under, when it
/// is already known.
#[derive(Debug)]
pub enum PersistCommand<S> {
    Mirrored(S),
    RowAppend {
        session_id: String,
        entry: ConversationRowEntry,
        viewer_present: bool,
        assigned_sequence: Option<u64>,
    },
    RowUpsert {
        session_id: String,
        entry: ConversationRowEntry,
        viewer_present: bool,
        assigned_sequence: Option<u64>,
    },
    SetConfig { key: String, value: String },
    MissionCreate {
        id: String,
        name: String,
        repo_root: String,
        tracker_kind: String,
        provider: String,
        config_json: Option<String>,
        prompt_template: Option<String>,
        mission_file_path: Option<String>,
        tracker_api_key: Option<String>,
    },
    MissionUpdate {
        id: String,
        name: Option<String>,
        enabled: Option<bool>,
        paused: Option<bool>,
        tracker_kind: Option<String>,
        config_json: Option<String>,
        prompt_template: Option<String>,
        parse_error: Option<Option<String>>,
        mission_file_path: Option<Option<String>>,
    },
    MissionSetTrackerKey { mission_id: String, key: Option<String> },
    MissionDelete { id: String },
}

/// A command as mirrored to the control plane. A row carries the sequence the
/// workspace's database gave it.
#[derive(Debug)]
pub enum SyncCommand<S> {
    Mirrored(S),
    RowAppend { session_id: String, entry: ConversationRowEntry, viewer_present: bool, sequence: u64 },
    RowUpsert { session_id: String, entry: ConversationRowEntry, viewer_present: bool, sequence: u64 },
}

/// A row entry under the given sequence.
pub open spec fn with_sequence(entry: ConversationRowEntry, sequence: u64) -> ConversationRowEntry {
    ConversationRowEntry { sequence, ..entry }
}

/// The mirror of a command as it is sent: a mirrored command's payload; nothing for a
/// row, whose sequence the database has not given yet, nor for a command that stays
/// on this machine.
pub open spec fn sync_of_persist<S>(p: PersistCommand<S>) -> Option<SyncCommand<S>> {
    match p {
        PersistCommand::Mirrored(x) => Some(SyncCommand::Mirrored(x)),
        _ => None,
    }
}

/// The mirror of a command once the database has written it and given a row the
/// sequence `n`: a row is mirrored with that sequence, both as the command's and as
/// its entry's; other commands as `sync_of_persist` says.
pub open spec fn sync_after_commit<S>(p: PersistCommand<S>, n: u64) -> Option<SyncCommand<S>> {
    match p {
        PersistCommand::RowAppend { session_id, entry, viewer_present, .. } => Some(
            SyncCommand::RowAppend {
                session_id,
                entry: with_sequence(entry, n),
                viewer_present,
                sequence: n,
            },
        ),
        PersistCommand::RowUpsert { session_id, entry, viewer_present, .. } => Some(
            SyncCommand::RowUpsert {
                session_id,
                entry: with_sequence(entry, n),
                viewer_present,
                sequence: n,
            },
        ),
        _ => sync_of_persist(p),
    }
}

/// The command a mirrored command replays as: a row is written under exactly the
/// sequence it carries, which its entry takes too; a mirrored payload is replayed as it
/// came.
pub open spec fn persist_of_sync<S>(s: SyncCommand<S>) -> PersistCommand<S> {
    match s {
        SyncCommand::Mirrored(x) => PersistCommand::Mirrored(x),
        SyncCommand::RowAppend { session_id, entry, viewer_present, sequence } => PersistCommand::RowAppend {
            session_id,
            entry: with_sequence(entry, sequence),
            viewer_present,
            assigned_sequence: Some(sequence),
        },
        SyncCommand::RowUpsert { session_id, entry, viewer_present, sequence } => PersistCommand::RowUpsert {
            session_id,
            entry: with_sequence(entry, sequence),
            viewer_present,
            assigned_sequence: Some(sequence),
        },
    }
}

/// The mirror of a command as it is sent, if it has one then.
pub fn sync_command_of<S>(p: PersistCommand<S>) -> (r: Option<SyncCommand<S>>)
    ensures
        r == sync_of_persist(p),
{
    match p {
        PersistCommand::Mirrored(x) => Some(SyncCommand::Mirrored(x)),
        _ => None,
    }
}

/// The mirror of a command once the database has written it, a row under sequence
/// `assigned_sequence`.
pub fn sync_with_assigned_sequence<S>(p: PersistCommand<S>, assigned_sequence: u64) -> (r: Option<
    SyncCommand<S>,
>)
    ensures
        r == sync_after_commit(p, assigned_sequence),
{
    match p {
        PersistCommand::RowAppend { session_id, mut entry, viewer_present, .. } => {
            entry.sequence = assigned_sequence;
            Some(SyncCommand::RowAppend { session_id, entry, viewer_present, sequence: assigned_sequence })
        },
        PersistCommand::RowUpsert { session_id, mut entry, viewer_present, .. } => {
            entry.sequence = assigned_sequence;
            Some(SyncCommand::RowUpsert { session_id, entry, viewer_present, sequence: assigned_sequence })
        },
        other => sync_command_of(other),
    }
}

/// The command a mirrored command replays as.
pub fn persist_command_from_sync<S>(s: SyncCommand<S>) -> (r: PersistCommand<S>)
    ensures
        r == persist_of_sync(s),
{
    match s {
        SyncCommand::Mirrored(x) => PersistCommand::Mirrored(x),
        SyncCommand::RowAppend { session_id, mut entry, viewer_present, sequence } => {
            entry.sequence = sequence;
            PersistCommand::RowAppend {
                session_id,
                entry,
                viewer_present,
                assigned_sequence: Some(sequence),
            }
        },
        SyncCommand::RowUpsert { session_id, mut entry, viewer_present, sequence } => {
            entry.sequence = sequence;
            PersistCommand::RowUpsert {
                session_id,
                entry,
                viewer_present,
                assigned_sequence: Some(sequence),
            }
        },
    }
}

/// A row is mirrored only with the sequence the database gave it: never as it is sent,
/// and after commit always, under that sequence.
pub proof fn rows_sync_only_with_assigned_sequence<S>(p: PersistCommand<S>, n: u64)
    requires
        p is RowAppend || p is RowUpsert,
    ensures
        sync_of_persist(p) is None,
        (sync_after_commit(p, n) matches Some(s) && match s {
            SyncCommand::RowAppend { entry, sequence, .. } => p is RowAppend && sequence == n
                && entry.sequence == n,
            SyncCommand::RowUpsert { entry, sequence, .. } => p is RowUpsert && sequence == n
                && entry.sequence == n,
            SyncCommand::Mirrored(_) => false,
        }),
{
}

/// Workspace configuration and mission administration are never mirrored.
pub proof fn local_commands_are_never_mirrored<S>(p: PersistCommand<S>, n: u64)
    requires
        !(p is Mirrored || p is RowAppend || p is RowUpsert),
    ensures
        sync_of_persist(p) is None,
        sync_after_commit(p, n) is None,
{
}

/// The control plane replays exactly what the workspace wrote: a mirrored payload
/// replays as itself and mirrors again unchanged; a row replays under exactly the
/// sequence it carries, which its entry takes too, and a row mirrored after commit
/// mirrors again unchanged once replayed.
pub proof fn replay_keeps_the_workspace_sequence<S>(s: SyncCommand<S>)
    ensures
        s is Mirrored ==> sync_of_persist(persist_of_sync(s)) == Some(s),
        (s matches SyncCommand::RowAppend { sequence, .. } ==> (persist_of_sync(s) matches PersistCommand::RowAppend { entry, assigned_sequence, .. } && assigned_sequence == Some(sequence) && entry.sequence == sequence)),
        (s matches SyncCommand::RowUpsert { sequence, .. } ==> (persist_of_sync(s) matches PersistCommand::RowUpsert { entry, assigned_sequence, .. } && assigned_sequence == Some(sequence) && entry.sequence == sequence)),
        (s matches SyncCommand::RowAppend { entry, sequence, .. } ==> (entry.sequence == sequence ==> sync_after_commit(persist_of_sync(s), sequence) == Some(s))),
        (s matches SyncCommand::RowUpsert { entry, sequence, .. } ==> (entry.sequence == sequence ==> sync_after_commit(persist_of_sync(s), sequence) == Some(s))),
{
    match s {
        SyncCommand::RowAppend { entry, sequence, .. } => {
            assert(entry.sequence == sequence ==> with_sequence(entry, sequence) == entry);
        },
        SyncCommand::RowUpsert { entry, sequence, .. } => {
            assert(entry.sequence == sequence ==> with_sequence(entry, sequence) == entry);
        },
        _ => {},
    }
}

} // verus!
