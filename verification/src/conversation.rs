//! Conversation rows as they are stored and forked: row type names, the text a row is
//! indexed by, and how a fork picks, truncates and renumbers the rows it copies.
use vstd::prelude::*;

use crate::sync::append_decimal;
use crate::dashboard::{json_text_field, read_json_text_field};
use crate::text::{
    chars_eq, chars_to_ascii_lower, clone_opt_string, copy_str, lower_seq, str_eq, string_from_range,
    to_chars,
};
use crate::timefmt::decimal;

verus! {

/// The kinds of conversation row.
#[derive(Debug, Clone, Copy, PartialEq, Eq, Structural)]
pub enum RowKind {
    User,
    Steer,
    Assistant,
    Thinking,
    Context,
    Notice,
    ShellCommand,
    Task,
    Tool,
    ActivityGroup,
    Question,
    Approval,
    Worker,
    Plan,
    Hook,
    Handoff,
    System,
}

/// Whether a turn's changes still stand.
#[derive(Debug, Clone, Copy, PartialEq, Eq, Structural)]
pub enum TurnStatus {
    Active,
    Undone,
    RolledBack,
}

/// One conversation row: its kind, id, and the text fields the store reads. `text` is
/// a message's content or another row's title.
#[derive(Debug, Clone)]
pub struct ConversationRow {
    pub kind: RowKind,
    pub id: String,
    pub text: String,
    pub summary: Option<String>,
    pub command: Option<String>,
}

/// A row placed in a session.
#[derive(Debug, Clone)]
pub struct ConversationRowEntry {
    pub session_id: String,
    pub sequence: u64,
    pub turn_id: Option<String>,
    pub turn_status: TurnStatus,
    pub row: ConversationRow,
}

/// A row that opens a user turn: a user message (a steer does not).
pub open spec fn opens_turn(kind: RowKind) -> bool {
    kind == RowKind::User
}

impl ConversationRow {
    /// Whether this row opens a user turn.
    pub fn starts_turn(&self) -> (r: bool)
        ensures
            r == opens_turn(self.kind),
    {
        match self.kind {
            RowKind::User => true,
            _ => false,
        }
    }
}

impl ConversationRowEntry {
    /// The row's id.
    pub fn id(&self) -> (r: &str)
        ensures
            r@ == self.row.id@,
    {
        self.row.id.as_str()
    }
}

/// The name a row kind is stored under.
pub open spec fn row_kind_name(kind: RowKind) -> Seq<char> {
    match kind {
        RowKind::User => "user"@,
        RowKind::Steer => "steer"@,
        RowKind::Assistant => "assistant"@,
        RowKind::Thinking => "thinking"@,
        RowKind::Context => "context"@,
        RowKind::Notice => "notice"@,
        RowKind::ShellCommand => "shell_command"@,
        RowKind::Task => "task"@,
        RowKind::Tool => "tool"@,
        RowKind::ActivityGroup => "activity_group"@,
        RowKind::Question => "question"@,
        RowKind::Approval => "approval"@,
        RowKind::Worker => "worker"@,
        RowKind::Plan => "plan"@,
        RowKind::Hook => "hook"@,
        RowKind::Handoff => "handoff"@,
        RowKind::System => "system"@,
    }
}

/// The name a row's kind is stored under.
pub fn row_type_str(row: &ConversationRow) -> (r: &'static str)
    ensures
        r@ == row_kind_name(row.kind),
{
    match row.kind {
        RowKind::User => "user",
        RowKind::Steer => "steer",
        RowKind::Assistant => "assistant",
        RowKind::Thinking => "thinking",
        RowKind::Context => "context",
        RowKind::Notice => "notice",
        RowKind::ShellCommand => "shell_command",
        RowKind::Task => "task",
        RowKind::Tool => "tool",
        RowKind::ActivityGroup => "activity_group",
        RowKind::Question => "question",
        RowKind::Approval => "approval",
        RowKind::Worker => "worker",
        RowKind::Plan => "plan",
        RowKind::Hook => "hook",
        RowKind::Handoff => "handoff",
        RowKind::System => "system",
    }
}

/// The name a turn status is stored under.
pub fn turn_status_str(status: TurnStatus) -> (r: &'static str)
    ensures
        r@ == (match status {
            TurnStatus::Active => "active"@,
            TurnStatus::Undone => "undone"@,
            TurnStatus::RolledBack => "rolled_back"@,
        }),
{
    match status {
        TurnStatus::Active => "active",
        TurnStatus::Undone => "undone",
        TurnStatus::RolledBack => "rolled_back",
    }
}

/// The text a row is stored with: a message's content; the summary, else the title,
/// of context, notice and task rows; the summary, else the command, else the title, of
/// a shell command; the title of tool, plan, hook, handoff, worker and activity rows;
/// the id of approvals and questions.
pub open spec fn row_content(row: ConversationRow) -> Seq<char> {
    match row.kind {
        RowKind::User | RowKind::Steer | RowKind::Assistant | RowKind::Thinking
        | RowKind::System => row.text@,
        RowKind::Context | RowKind::Notice | RowKind::Task => match row.summary {
            Some(s) => s@,
            None => row.text@,
        },
        RowKind::ShellCommand => match row.summary {
            Some(s) => s@,
            None => match row.command {
                Some(c) => c@,
                None => row.text@,
            },
        },
        RowKind::Approval | RowKind::Question => row.id@,
        _ => row.text@,
    }
}

/// The text a row is stored with.
pub fn extract_row_content(row: &ConversationRow) -> (r: Option<String>)
    ensures
        r matches Some(v) && v@ == row_content(*row),
{
    match row.kind {
        RowKind::User | RowKind::Steer | RowKind::Assistant | RowKind::Thinking
        | RowKind::System => Some(row.text.clone()),
        RowKind::Context | RowKind::Notice | RowKind::Task => match &row.summary {
            Some(s) => Some(s.clone()),
            None => Some(row.text.clone()),
        },
        RowKind::ShellCommand => match &row.summary {
            Some(s) => Some(s.clone()),
            None => match &row.command {
                Some(c) => Some(c.clone()),
                None => Some(row.text.clone()),
            },
        },
        RowKind::Approval | RowKind::Question => Some(row.id.clone()),
        _ => Some(row.text.clone()),
    }
}

/// How writing a row changes its session's unread count.
#[derive(Debug, Clone, Copy, PartialEq, Eq, Structural)]
pub enum UnreadEffect {
    Unchanged,
    ReadThroughRow,
    OneMore,
}

/// What writing a row changes on its session besides the last activity time, which
/// every write sets.
#[derive(Debug, Clone)]
pub struct RowWriteEffects {
    pub last_message: Option<String>,
    pub touches_progress: bool,
    pub unread: UnreadEffect,
}

/// The most characters of a row kept as the session's last message.
pub const LAST_MESSAGE_CHARS: usize = 200;

/// Rows whose text becomes the session's last message: what the user and the
/// assistant said.
pub open spec fn sets_last_message(kind: RowKind) -> bool {
    kind == RowKind::User || kind == RowKind::Steer || kind == RowKind::Assistant
}

/// At most the first `LAST_MESSAGE_CHARS` characters of a text.
pub open spec fn last_message_of(text: Seq<char>) -> Seq<char> {
    if text.len() <= LAST_MESSAGE_CHARS {
        text
    } else {
        text.take(LAST_MESSAGE_CHARS as int)
    }
}

/// The unread change of a write: a row from the user changes nothing; another row is
/// read at once where someone is viewing the session, else an appended row is one more
/// unread and a rewritten one changes nothing.
pub open spec fn unread_effect(is_user_input: bool, viewer_present: bool, appended: bool)
    -> UnreadEffect {
    if is_user_input {
        UnreadEffect::Unchanged
    } else if viewer_present {
        UnreadEffect::ReadThroughRow
    } else if appended {
        UnreadEffect::OneMore
    } else {
        UnreadEffect::Unchanged
    }
}

/// What appending (`appended`) or rewriting a row changes on its session: the row's
/// text, cut to `LAST_MESSAGE_CHARS` characters, becomes the last message where the
/// user or the assistant said it; a row that is not user input marks progress; and
/// the unread count changes as `unread_effect` says.
pub fn row_write_effects(
    row: &ConversationRow,
    is_user_input: bool,
    viewer_present: bool,
    appended: bool,
) -> (r: RowWriteEffects)
    ensures
        r.last_message is Some <==> sets_last_message(row.kind),
        r.last_message matches Some(m) ==> m@ == last_message_of(row_content(*row)),
        r.touches_progress == !is_user_input,
        r.unread == unread_effect(is_user_input, viewer_present, appended),
{
    let last_message = if row.kind == RowKind::User || row.kind == RowKind::Steer || row.kind
        == RowKind::Assistant {
        match extract_row_content(row) {
            Some(content) => {
                let chars = to_chars(content.as_str());
                let end = if chars.len() <= LAST_MESSAGE_CHARS {
                    chars.len()
                } else {
                    LAST_MESSAGE_CHARS
                };
                let kept = string_from_range(&chars, 0, end);
                proof {
                    assert(chars@.subrange(0, end as int) =~= last_message_of(content@));
                }
                Some(kept)
            },
            None => None,
        }
    } else {
        None
    };
    let unread = if is_user_input {
        UnreadEffect::Unchanged
    } else if viewer_present {
        UnreadEffect::ReadThroughRow
    } else if appended {
        UnreadEffect::OneMore
    } else {
        UnreadEffect::Unchanged
    };
    RowWriteEffects { last_message, touches_progress: !is_user_input, unread }
}

/// What a fork asks for and what its source session had.
#[derive(Debug, Clone)]
pub struct ForkConfigInputs {
    pub requested_model: Option<String>,
    pub requested_approval_policy: Option<String>,
    pub requested_sandbox_mode: Option<String>,
    pub requested_cwd: Option<String>,
    pub source_cwd: Option<String>,
    pub source_model: Option<String>,
    pub source_approval_policy: Option<String>,
    pub source_sandbox_mode: Option<String>,
}

/// The settings a fork runs with.
#[derive(Debug, Clone, PartialEq, Eq)]
pub struct ForkConfigPlan {
    pub effective_cwd: Option<String>,
    pub effective_model: Option<String>,
    pub effective_approval_policy: Option<String>,
    pub effective_sandbox_mode: Option<String>,
}

/// The requested value, else the source's.
pub open spec fn or_else(requested: Option<String>, source: Option<String>) -> Option<String> {
    if requested is Some {
        requested
    } else {
        source
    }
}

fn prefer(requested: Option<String>, source: Option<String>) -> (r: Option<String>)
    ensures
        r == or_else(requested, source),
{
    match requested {
        Some(v) => Some(v),
        None => source,
    }
}

/// Each setting of a fork is the requested one, else the source session's.
pub fn plan_fork_config(input: ForkConfigInputs) -> (r: ForkConfigPlan)
    ensures
        r.effective_cwd == or_else(input.requested_cwd, input.source_cwd),
        r.effective_model == or_else(input.requested_model, input.source_model),
        r.effective_approval_policy == or_else(
            input.requested_approval_policy,
            input.source_approval_policy,
        ),
        r.effective_sandbox_mode == or_else(input.requested_sandbox_mode, input.source_sandbox_mode),
{
    ForkConfigPlan {
        effective_cwd: prefer(input.requested_cwd, input.source_cwd),
        effective_model: prefer(input.requested_model, input.source_model),
        effective_approval_policy: prefer(input.requested_approval_policy, input.source_approval_policy),
        effective_sandbox_mode: prefer(input.requested_sandbox_mode, input.source_sandbox_mode),
    }
}

/// Index of the row that opens user turn number `n` (counting from 0), searching from
/// row `i` with `count` turns opened before it.
pub open spec fn turn_start_from(rows: Seq<ConversationRowEntry>, n: int, i: int, count: int) -> Option<
    int,
>
    decreases rows.len() - i,
{
    if i < 0 || i >= rows.len() {
        None
    } else if opens_turn(rows[i].row.kind) {
        if count == n {
            Some(i)
        } else {
            turn_start_from(rows, n, i + 1, count + 1)
        }
    } else {
        turn_start_from(rows, n, i + 1, count)
    }
}

/// The rows a fork keeps when it forks before user turn `nth`: all of them when no
/// turn is given; the rows before the row that opens that turn; none when there is no
/// such turn.
pub open spec fn rows_before_turn(rows: Seq<ConversationRowEntry>, nth: Option<u32>) -> Seq<
    ConversationRowEntry,
> {
    match nth {
        None => rows,
        Some(n) => match turn_start_from(rows, n as int, 0, 0) {
            Some(i) => rows.take(i),
            None => Seq::empty(),
        },
    }
}

fn clone_row(r: &ConversationRow) -> (c: ConversationRow)
    ensures
        c == *r,
{
    ConversationRow {
        kind: r.kind,
        id: r.id.clone(),
        text: r.text.clone(),
        summary: clone_opt_string(&r.summary),
        command: clone_opt_string(&r.command),
    }
}

fn clone_entry(e: &ConversationRowEntry) -> (c: ConversationRowEntry)
    ensures
        c == *e,
{
    ConversationRowEntry {
        session_id: e.session_id.clone(),
        sequence: e.sequence,
        turn_id: clone_opt_string(&e.turn_id),
        turn_status: e.turn_status,
        row: clone_row(&e.row),
    }
}

fn copy_prefix(rows: &Vec<ConversationRowEntry>, n: usize) -> (r: Vec<ConversationRowEntry>)
    requires
        n <= rows@.len(),
    ensures
        r@ == rows@.take(n as int),
{
    let mut r: Vec<ConversationRowEntry> = Vec::new();
    let mut i: usize = 0;
    while i < n
        invariant
            n <= rows@.len(),
            i <= n,
            r@ == rows@.take(i as int),
        decreases n - i,
    {
        r.push(clone_entry(&rows[i]));
        proof {
            assert(r@ =~= rows@.take(i + 1));
        }
        i = i + 1;
    }
    r
}

/// The rows a fork keeps when it forks before user turn `nth_user_row` (steers do not
/// count as turns).
pub fn truncate_rows_before_nth_user_row(
    rows: &Vec<ConversationRowEntry>,
    nth_user_row: Option<u32>,
) -> (r: Vec<ConversationRowEntry>)
    ensures
        r@ == rows_before_turn(rows@, nth_user_row),
{
    let n = match nth_user_row {
        None => {
            return copy_prefix(rows, rows.len());
        },
        Some(n) => n,
    };
    proof {
        assert(rows@.take(rows@.len() as int) =~= rows@);
        assert(nth_user_row == Some(n));
    }
    let mut count: u64 = 0;
    let mut i: usize = 0;
    while i < rows.len()
        invariant
            nth_user_row == Some(n),
            i <= rows@.len(),
            count <= i,
            turn_start_from(rows@, n as int, 0, 0) == turn_start_from(
                rows@,
                n as int,
                i as int,
                count as int,
            ),
        decreases rows.len() - i,
    {
        if rows[i].row.starts_turn() {
            if count == n as u64 {
                proof {
                    assert(opens_turn(rows@[i as int].row.kind));
                    assert(turn_start_from(rows@, n as int, i as int, count as int) == Some(i as int));
                }
                return copy_prefix(rows, i);
            }
            count = count + 1;
        }
        i = i + 1;
    }
    Vec::new()
}

/// The id a forked row gets: `<session>:fork:<index>`.
pub open spec fn fork_row_id(session: Seq<char>, idx: nat) -> Seq<char> {
    session + ":fork:"@ + decimal(idx)
}

/// `after` is `before` moved into the fork session under its new id.
pub open spec fn remapped(before: ConversationRowEntry, after: ConversationRowEntry, session: Seq<char>, idx: nat) -> bool {
    &&& after.session_id@ == session
    &&& after.row.id@ == fork_row_id(session, idx)
    &&& after.sequence == before.sequence
    &&& after.turn_id == before.turn_id
    &&& after.turn_status == before.turn_status
    &&& after.row.kind == before.row.kind
    &&& after.row.text == before.row.text
    &&& after.row.summary == before.row.summary
    &&& after.row.command == before.row.command
}

/// Moves rows into a fork session, numbering their ids by position.
pub fn remap_rows_for_fork(rows: Vec<ConversationRowEntry>, new_session_id: &str) -> (r: Vec<
    ConversationRowEntry,
>)
    requires
        rows@.len() <= u64::MAX,
    ensures
        r@.len() == rows@.len(),
        forall|k: int|
            0 <= k < rows@.len() ==> remapped(rows@[k], #[trigger] r@[k], new_session_id@, k as nat),
{
    let mut out: Vec<ConversationRowEntry> = Vec::new();
    let mut i: usize = 0;
    while i < rows.len()
        invariant
            rows@.len() <= u64::MAX,
            i <= rows@.len(),
            out@.len() == i,
            forall|k: int|
                0 <= k < i ==> remapped(rows@[k], #[trigger] out@[k], new_session_id@, k as nat),
        decreases rows.len() - i,
    {
        let e = &rows[i];
        let mut id = copy_str(new_session_id);
        id.append(":fork:");
        append_decimal(&mut id, i as u64);
        let entry = ConversationRowEntry {
            session_id: copy_str(new_session_id),
            sequence: e.sequence,
            turn_id: clone_opt_string(&e.turn_id),
            turn_status: e.turn_status,
            row: ConversationRow {
                kind: e.row.kind,
                id,
                text: e.row.text.clone(),
                summary: clone_opt_string(&e.row.summary),
                command: clone_opt_string(&e.row.command),
            },
        };
        out.push(entry);
        i = i + 1;
    }
    out
}

/// The fuller of the two row sets a fork could copy: the source session's rows unless
/// the rollout has more.
pub fn select_fork_rows(
    source_rows: Vec<ConversationRowEntry>,
    rollout_rows: Vec<ConversationRowEntry>,
) -> (r: Vec<ConversationRowEntry>)
    ensures
        r@ == if source_rows@.len() >= rollout_rows@.len() {
            source_rows@
        } else {
            rollout_rows@
        },
{
    if source_rows.len() >= rollout_rows.len() {
        source_rows
    } else {
        rollout_rows
    }
}

/// Whether a session can still be written to.
#[derive(Debug, Clone, Copy, PartialEq, Eq, Structural)]
pub enum SessionLifecycleState {
    Open,
    Resumable,
    Ended,
}

/// Whether a session is running.
#[derive(Debug, Clone, Copy, PartialEq, Eq, Structural)]
pub enum SessionStatus {
    Active,
    Ended,
}

/// Who drives a session: OrbitDock directly, or the provider with OrbitDock watching.
#[derive(Debug, Clone, Copy, PartialEq, Eq, Structural)]
pub enum SessionControlMode {
    Direct,
    Passive,
}

fn lowered(s: &str) -> (r: Vec<char>)
    ensures
        r@ == lower_seq(s@),
{
    chars_to_ascii_lower(&to_chars(s))
}

fn lowered_is(s: &str, expected: &str) -> (r: bool)
    ensures
        r == (lower_seq(s@) == expected@),
{
    chars_eq(&lowered(s), &to_chars(expected))
}

/// A stored lifecycle state, read without regard to ASCII case: `resumable`, `ended`,
/// and anything else (or nothing) as open.
pub fn parse_lifecycle_state(value: Option<&str>) -> (r: SessionLifecycleState)
    ensures
        r == match value {
            Some(v) => if lower_seq(v@) == "resumable"@ {
                SessionLifecycleState::Resumable
            } else if lower_seq(v@) == "ended"@ {
                SessionLifecycleState::Ended
            } else {
                SessionLifecycleState::Open
            },
            None => SessionLifecycleState::Open,
        },
{
    match value {
        Some(v) => if lowered_is(v, "resumable") {
            SessionLifecycleState::Resumable
        } else if lowered_is(v, "ended") {
            SessionLifecycleState::Ended
        } else {
            SessionLifecycleState::Open
        },
        None => SessionLifecycleState::Open,
    }
}

/// A stored status, read without regard to ASCII case: `ended`, and anything else as
/// active.
pub fn parse_session_status(value: &str) -> (r: SessionStatus)
    ensures
        r == if lower_seq(value@) == "ended"@ {
            SessionStatus::Ended
        } else {
            SessionStatus::Active
        },
{
    if lowered_is(value, "ended") {
        SessionStatus::Ended
    } else {
        SessionStatus::Active
    }
}

/// A stored control mode, read without regard to ASCII case; `None` for anything but
/// `direct` and `passive`.
pub fn parse_control_mode(value: Option<&str>) -> (r: Option<SessionControlMode>)
    ensures
        r == match value {
            Some(v) => if lower_seq(v@) == "direct"@ {
                Some(SessionControlMode::Direct)
            } else if lower_seq(v@) == "passive"@ {
                Some(SessionControlMode::Passive)
            } else {
                None
            },
            None => None,
        },
{
    match value {
        Some(v) => if lowered_is(v, "direct") {
            Some(SessionControlMode::Direct)
        } else if lowered_is(v, "passive") {
            Some(SessionControlMode::Passive)
        } else {
            None
        },
        None => None,
    }
}

/// A user row stored before steers had a kind of their own: stored under the type
/// `steer`, or with an `input_kind` of `steer` in its JSON.
pub open spec fn is_legacy_steer(msg_type: Seq<char>, raw_json: Seq<char>, kind: RowKind) -> bool {
    kind == RowKind::User && (msg_type == "steer"@ || (msg_type == "user"@ && json_text_field(
        raw_json,
        "input_kind"@,
    ) == Some(Some("steer"@))))
}

/// A stored row with legacy steers read as steers.
pub fn normalize_legacy_message_kind(msg_type: &str, raw_json: &str, row: ConversationRow) -> (r:
    ConversationRow)
    ensures
        r == (if is_legacy_steer(msg_type@, raw_json@, row.kind) {
            ConversationRow { kind: RowKind::Steer, ..row }
        } else {
            row
        }),
{
    if row.kind != RowKind::User {
        return row;
    }
    if str_eq(msg_type, "steer") {
        return ConversationRow { kind: RowKind::Steer, ..row };
    }
    if str_eq(msg_type, "user") {
        let steer = match read_json_text_field(raw_json, "input_kind") {
            Some(Some(kind)) => str_eq(kind.as_str(), "steer"),
            _ => false,
        };
        if steer {
            return ConversationRow { kind: RowKind::Steer, ..row };
        }
    }
    row
}

/// Forked rows get distinct ids: rows at different positions never share one.
pub proof fn fork_row_ids_are_distinct(session: Seq<char>, i: nat, j: nat)
    requires
        i != j,
    ensures
        fork_row_id(session, i) != fork_row_id(session, j),
{
    let p = session + ":fork:"@;
    if fork_row_id(session, i) == fork_row_id(session, j) {
        assert(fork_row_id(session, i) == p + decimal(i));
        assert(fork_row_id(session, j) == p + decimal(j));
        assert((p + decimal(i)).subrange(p.len() as int, (p + decimal(i)).len() as int) =~= decimal(i));
        assert((p + decimal(j)).subrange(p.len() as int, (p + decimal(j)).len() as int) =~= decimal(j));
        crate::timefmt::decimal_is_injective(i, j);
    }
}

} // verus!
